//! The server's side of connections: who is let in, where events are sent,
//! whether a peer is alive, and what is done with what it sends.

pub mod laws;

use crate::audio::framing::AudioStats;
use crate::audio::{AudioSettings, SAMPLE_RATE, WIRE_CHANNELS};
use crate::client::ClientManager;
use crate::datagram::batch::AudioFrame;
use crate::datagram::{decode, parse_datagram, AudioControlCmd, Datagram, DatagramView};
use crate::ipc::ClientHandle;
use crate::net::{AddrSet, SocketAddr};
use crate::proto::{ProtoEvent, ProtocolError};
use crate::text::TextMap;
use std::collections::VecDeque;
use std::ops::Range;
use vstd::prelude::*;

verus! {

/// Why an event was not sent to a client.
#[derive(Clone, Copy, Debug, PartialEq, Eq, Structural)]
pub enum SendError {
    /// the client is not connected
    NotConnected(ClientHandle),
    /// the client does not emulate input
    EmulationDisabled(ClientHandle),
}

/// The message for a failed send.
pub open spec fn send_error_text(e: SendError) -> Seq<char> {
    match e {
        SendError::NotConnected(h) => "client "@ + crate::text::decimal(h as nat)
            + " is not connected"@,
        SendError::EmulationDisabled(h) => "emulation is disabled on client "@
            + crate::text::decimal(h as nat),
    }
}

impl SendError {
    /// The message for the log.
    pub fn to_string(&self) -> (s: String)
        ensures
            s@ == send_error_text(*self),
    {
        match self {
            SendError::NotConnected(h) => crate::text::concat3(
                "client ",
                crate::text::decimal_text(*h).as_str(),
                " is not connected",
            ),
            SendError::EmulationDisabled(h) => crate::text::concat2(
                "emulation is disabled on client ",
                crate::text::decimal_text(*h).as_str(),
            ),
        }
    }
}

/// What a listener tells input capture.
#[derive(Debug)]
pub enum ListenEvent {
    /// a peer sent an event
    Msg { event: ProtoEvent, addr: SocketAddr },
    /// an authorized device connected
    Accept { addr: SocketAddr, fingerprint: String },
    /// a device that is not authorized was turned away
    Rejected { fingerprint: String },
    /// a connection ended
    Disconnected { addr: SocketAddr },
    /// status of a peer's audio stream
    AudioStream { addr: SocketAddr, active: bool, latency_ms: u32, packets_lost: u64, level: u32 },
}

/// The status of a stream that begins or ends: nothing was measured.
pub open spec fn stream_event(addr: SocketAddr, active: bool) -> ListenEvent {
    ListenEvent::AudioStream { addr, active, latency_ms: 0, packets_lost: 0, level: 0 }
}

fn stream_event_of(addr: SocketAddr, active: bool) -> (e: ListenEvent)
    ensures
        e == stream_event(addr, active),
{
    ListenEvent::AudioStream { addr, active, latency_ms: 0, packets_lost: 0, level: 0 }
}

/// Lets devices in by their fingerprints, and remembers those that were
/// turned away until they are reported.
pub struct Admission {
    attempts: VecDeque<String>,
}

impl Admission {
    /// The fingerprints that were turned away, the first one first.
    pub closed spec fn attempts(self) -> Seq<Seq<char>> {
        self.attempts@.map_values(|s: String| s@)
    }

    /// Nobody was turned away yet.
    pub fn new() -> (a: Admission)
        ensures
            a.attempts() == Seq::<Seq<char>>::empty(),
    {
        let a = Admission { attempts: VecDeque::new() };
        assert(a.attempts() =~= Seq::<Seq<char>>::empty());
        a
    }

    /// Lets a device in if its fingerprint is authorized, and remembers it
    /// if it is not.
    pub fn verify(&mut self, authorized: &TextMap<String>, fingerprint: String) -> (ok: bool)
        ensures
            ok == authorized@.contains_key(fingerprint@),
            final(self).attempts() == if ok {
                old(self).attempts()
            } else {
                old(self).attempts().push(fingerprint@)
            },
    {
        if authorized.contains_key(fingerprint.as_str()) {
            true
        } else {
            let ghost f = fingerprint@;
            self.attempts.push_back(fingerprint);
            assert(self.attempts() =~= old(self).attempts().push(f));
            false
        }
    }

    /// The device that was turned away first and not reported yet.
    pub fn rejected(&mut self) -> (e: Option<ListenEvent>)
        ensures
            match e {
                Some(ListenEvent::Rejected { fingerprint }) => old(self).attempts().len() > 0
                    && fingerprint@ == old(self).attempts()[0] && final(self).attempts() == old(
                    self,
                ).attempts().skip(1),
                Some(_) => false,
                None => old(self).attempts().len() == 0 && final(self).attempts() == old(
                    self,
                ).attempts(),
            },
    {
        match self.attempts.pop_front() {
            Some(fingerprint) => {
                assert(self.attempts() =~= old(self).attempts().skip(1));
                Some(ListenEvent::Rejected { fingerprint })
            },
            None => None,
        }
    }
}

/// The accepted connections by the addresses they come from.
pub struct ConnTable<C> {
    conns: Vec<(SocketAddr, C)>,
}

/// The place of the first connection from an address.
pub open spec fn conn_index<C>(conns: Seq<(SocketAddr, C)>, addr: SocketAddr) -> Option<int>
    decreases conns.len(),
{
    if conns.len() == 0 {
        None
    } else {
        match conn_index(conns.drop_last(), addr) {
            Some(i) => Some(i),
            None => if conns.last().0 == addr {
                Some(conns.len() - 1)
            } else {
                None
            },
        }
    }
}

/// A connection is found where it first stands, and only if it is there.
pub proof fn lemma_conn_index<C>(conns: Seq<(SocketAddr, C)>, addr: SocketAddr)
    ensures
        match conn_index(conns, addr) {
            Some(i) => 0 <= i < conns.len() && conns[i].0 == addr && forall|j: int|
                0 <= j < i ==> (#[trigger] conns[j]).0 != addr,
            None => forall|j: int| 0 <= j < conns.len() ==> (#[trigger] conns[j]).0 != addr,
        },
    decreases conns.len(),
{
    if conns.len() > 0 {
        let init = conns.drop_last();
        lemma_conn_index(init, addr);
        assert(forall|j: int| 0 <= j < init.len() ==> init[j] == conns[j]);
    }
}

impl<C> ConnTable<C> {
    /// The connections in the order they were accepted.
    pub closed spec fn conns(self) -> Seq<(SocketAddr, C)> {
        self.conns@
    }

    /// No connection yet.
    pub fn new() -> (t: ConnTable<C>)
        ensures
            t.conns() == Seq::<(SocketAddr, C)>::empty(),
    {
        ConnTable { conns: Vec::new() }
    }

    /// Adds a connection.
    pub fn push(&mut self, addr: SocketAddr, conn: C)
        ensures
            final(self).conns() == old(self).conns().push((addr, conn)),
    {
        self.conns.push((addr, conn));
    }

    /// Number of connections.
    pub fn len(&self) -> (n: usize)
        ensures
            n == self.conns().len(),
    {
        self.conns.len()
    }

    /// A connection and where it comes from.
    pub fn get(&self, i: usize) -> (c: (SocketAddr, &C))
        requires
            i < self.conns().len(),
        ensures
            c.0 == self.conns()[i as int].0,
            *c.1 == self.conns()[i as int].1,
    {
        (self.conns[i].0, &self.conns[i].1)
    }

    /// The place of the first connection from an address.
    pub fn find(&self, addr: SocketAddr) -> (r: Option<usize>)
        ensures
            match r {
                Some(i) => conn_index(self.conns(), addr) == Some(i as int) && i
                    < self.conns().len(),
                None => conn_index(self.conns(), addr) is None,
            },
    {
        let mut r: Option<usize> = None;
        let mut i: usize = 0;
        let ghost all = self.conns@;
        while i < self.conns.len()
            invariant
                i <= self.conns@.len(),
                all == self.conns@,
                match r {
                    Some(k) => k < i && conn_index(all.take(i as int), addr) == Some(k as int),
                    None => conn_index(all.take(i as int), addr) is None,
                },
            decreases self.conns@.len() - i,
        {
            assert(all.take(i + 1).drop_last() =~= all.take(i as int));
            if r.is_none() && self.conns[i].0 == addr {
                r = Some(i);
            }
            i = i + 1;
        }
        assert(all.take(i as int) =~= all);
        r
    }

    /// Forgets the first connection from an address.
    pub fn remove(&mut self, addr: SocketAddr)
        ensures
            final(self).conns() == (match conn_index(old(self).conns(), addr) {
                Some(i) => old(self).conns().remove(i),
                None => old(self).conns(),
            }),
    {
        if let Some(i) = self.find(addr) {
            let _ = self.conns.remove(i);
            assert(self.conns@ =~= old(self).conns@.remove(i as int));
        }
    }

    /// The places of all connections from an address, for a reply.
    pub fn find_all(&self, addr: SocketAddr) -> (r: Vec<usize>)
        ensures
            forall|k: int|
                0 <= k < r@.len() ==> (#[trigger] r@[k]) < self.conns().len()
                    && self.conns()[r@[k] as int].0 == addr,
            forall|a: int, b: int| 0 <= a < b < r@.len() ==> r@[a] < r@[b],
            forall|i: int|
                0 <= i < self.conns().len() && (#[trigger] self.conns()[i]).0 == addr
                    ==> r@.contains(i as usize),
    {
        let mut r: Vec<usize> = Vec::new();
        let mut i: usize = 0;
        while i < self.conns.len()
            invariant
                i <= self.conns@.len(),
                forall|k: int|
                    0 <= k < r@.len() ==> (#[trigger] r@[k]) < i && self.conns@[r@[k] as int].0
                        == addr,
                forall|a: int, b: int| 0 <= a < b < r@.len() ==> r@[a] < r@[b],
                forall|j: int|
                    0 <= j < i && (#[trigger] self.conns@[j]).0 == addr ==> r@.contains(
                        j as usize,
                    ),
            decreases self.conns@.len() - i,
        {
            if self.conns[i].0 == addr {
                let ghost before = r@;
                r.push(i);
                proof {
                    assert forall|j: int| 0 <= j < i + 1 && (#[trigger] self.conns@[j]).0
                        == addr implies r@.contains(j as usize) by {
                        if j < i {
                            let m = choose|m: int| 0 <= m < before.len() && before[m] == j as usize;
                            assert(r@[m] == j as usize);
                        } else {
                            assert(r@[before.len() as int] == i);
                        }
                    }
                }
            }
            i = i + 1;
        }
        r
    }
}

/// Where an event for a client is sent: to the connection that is paired
/// with it, if the client is alive. A device that waits for a position has no
/// client and cannot be addressed.
pub open spec fn route<C>(
    clients: crate::client::ManagerView,
    conns: Seq<(SocketAddr, C)>,
    handle: ClientHandle,
) -> Result<int, SendError> {
    match clients.get(handle) {
        Some(c) => match c.state.active_addr {
            Some(addr) => if !c.state.alive {
                Err(SendError::EmulationDisabled(handle))
            } else {
                match conn_index(conns, addr) {
                    Some(i) => Ok(i),
                    None => Err(SendError::NotConnected(handle)),
                }
            },
            None => Err(SendError::NotConnected(handle)),
        },
        None => Err(SendError::NotConnected(handle)),
    }
}

/// Finds the connection that an event for a client is sent over.
pub fn find_route<C>(clients: &ClientManager, conns: &ConnTable<C>, handle: ClientHandle) -> (r:
    Result<usize, SendError>)
    ensures
        match r {
            Ok(i) => route(clients@, conns.conns(), handle) == Ok::<int, SendError>(i as int) && i
                < conns.conns().len(),
            Err(e) => route(clients@, conns.conns(), handle) == Err::<int, SendError>(e),
        },
{
    let addr = match clients.active_addr(handle) {
        Some(addr) => addr,
        None => return Err(SendError::NotConnected(handle)),
    };
    if !clients.alive(handle) {
        return Err(SendError::EmulationDisabled(handle));
    }
    match conns.find(addr) {
        Some(i) => Ok(i),
        None => Err(SendError::NotConnected(handle)),
    }
}

/// What a send over the route that was found comes to. A failed one closes
/// the connection.
pub fn send_result(handle: ClientHandle, sent: bool) -> (r: Result<(), SendError>)
    ensures
        r == if sent {
            Ok::<(), SendError>(())
        } else {
            Err(SendError::NotConnected(handle))
        },
{
    if sent {
        Ok(())
    } else {
        Err(SendError::NotConnected(handle))
    }
}

/// A device whose fingerprint is paired with no client cannot be addressed:
/// whatever handle is tried, no route leads to its connection unless some
/// client is bound to its address.
pub proof fn lemma_unpaired_device_has_no_route<C>(
    clients: crate::client::ManagerView,
    conns: Seq<(SocketAddr, C)>,
    handle: ClientHandle,
    addr: SocketAddr,
)
    requires
        clients.wf(),
        clients.first(crate::client::QueryView::ActiveAddr(addr)) is None,
    ensures
        route(clients, conns, handle) matches Ok(i) ==> conns[i].0 != addr,
{
    crate::client::lemma_first_match(
        clients.slots,
        crate::client::QueryView::ActiveAddr(addr),
    );
    if let Some(c) = clients.get(handle) {
        assert(clients.slots[crate::client::slot(handle)] is Some);
        if let Some(a) = c.state.active_addr {
            lemma_conn_index(conns, a);
        }
    }
}

/// How often a peer is probed, in milliseconds: short enough that a few lost
/// datagrams cannot end a connection.
pub const LIVENESS_INTERVAL_MS: u64 = 5_000;

/// Probes in a row without any answer after which a peer is dead.
pub const LIVENESS_MAX_MISSES: u32 = 6;

/// Counts probes in a row that were not answered. A single lost one must not
/// end the connection; only lasting silence does.
#[derive(Debug)]
pub struct MissCounter {
    misses: u32,
}

impl Default for MissCounter {
    fn default() -> (c: MissCounter)
        ensures
            c.misses() == 0,
    {
        MissCounter { misses: 0 }
    }
}

impl MissCounter {
    /// Probes in a row that were not answered.
    pub closed spec fn misses(self) -> u32 {
        self.misses
    }

    /// Notes a probe that was not answered. Tells whether the peer is to be
    /// considered dead.
    pub fn miss(&mut self) -> (dead: bool)
        requires
            old(self).misses() < u32::MAX,
        ensures
            final(self).misses() == old(self).misses() + 1,
            dead == (final(self).misses() >= LIVENESS_MAX_MISSES),
    {
        self.misses = self.misses + 1;
        self.misses >= LIVENESS_MAX_MISSES
    }

    /// Any datagram that was received proves the peer alive.
    pub fn reset(&mut self)
        ensures
            final(self).misses() == 0,
    {
        self.misses = 0;
    }

    /// Probes in a row that were not answered.
    pub fn count(&self) -> (n: u32)
        ensures
            n == self.misses(),
    {
        self.misses
    }
}

/// What the task that probes a peer does next.
#[derive(Clone, Copy, Debug, PartialEq, Eq, Structural)]
pub enum ProbeStep {
    /// send another probe
    Probe,
    /// wait for the interval to pass
    Wait,
    /// close the connection and end
    Close,
}

/// Probes a peer and decides when it is dead.
#[derive(Debug)]
pub struct Prober {
    addr: SocketAddr,
    keepalive: MissCounter,
}

impl Prober {
    /// The peer.
    pub closed spec fn addr(self) -> SocketAddr {
        self.addr
    }

    /// Probes in a row that were not answered.
    pub closed spec fn misses(self) -> u32 {
        self.keepalive.misses()
    }

    /// A peer that was not probed yet.
    pub fn new(addr: SocketAddr) -> (p: Prober)
        ensures
            p.addr() == addr,
            p.misses() == 0,
    {
        Prober { addr, keepalive: MissCounter::default() }
    }

    /// Begins a probe: what was heard before it does not count.
    pub fn begin(&self, heard: &mut AddrSet)
        ensures
            final(heard)@ == old(heard)@.remove(self.addr()),
    {
        let _ = heard.remove(self.addr);
    }

    /// What follows an attempt to send a probe.
    pub fn sent(&self, ok: bool) -> (s: ProbeStep)
        ensures
            s == if ok {
                ProbeStep::Wait
            } else {
                ProbeStep::Close
            },
    {
        if ok {
            ProbeStep::Wait
        } else {
            ProbeStep::Close
        }
    }

    /// Probes in a row that were not answered.
    pub fn missed(&self) -> (n: u32)
        ensures
            n == self.misses(),
    {
        self.keepalive.count()
    }

    /// What follows the interval after a probe. Any datagram from the peer
    /// counts as an answer, so that a busy audio stream cannot fail it.
    pub fn elapsed(&mut self, heard: &mut AddrSet) -> (s: ProbeStep)
        requires
            old(self).misses() < u32::MAX,
        ensures
            final(self).addr() == old(self).addr(),
            final(heard)@ == old(heard)@.remove(old(self).addr()),
            final(self).misses() == if old(heard)@.contains(old(self).addr()) {
                0
            } else {
                (old(self).misses() + 1) as u32
            },
            s == if final(self).misses() >= LIVENESS_MAX_MISSES {
                ProbeStep::Close
            } else {
                ProbeStep::Probe
            },
    {
        if heard.remove(self.addr) {
            self.keepalive.reset();
            ProbeStep::Probe
        } else if self.keepalive.miss() {
            ProbeStep::Close
        } else {
            ProbeStep::Probe
        }
    }
}

/// Whether each of a series of probes was answered.
pub open spec fn misses_after(start: nat, answered: Seq<bool>) -> nat
    decreases answered.len(),
{
    if answered.len() == 0 {
        start
    } else if answered.last() {
        0
    } else {
        misses_after(start, answered.drop_last()) + 1
    }
}

/// The last `n` of a series of probes were not answered.
pub open spec fn silent_for(answered: Seq<bool>, n: nat) -> bool {
    n <= answered.len() && forall|i: int|
        answered.len() - n <= i < answered.len() ==> !#[trigger] answered[i]
}

/// A peer is found dead exactly when the last six probes went unanswered:
/// losses that are scattered between answers never add up.
pub proof fn lemma_only_lasting_silence_kills(answered: Seq<bool>)
    ensures
        misses_after(0, answered) <= answered.len(),
        forall|n: nat| silent_for(answered, n) <==> n <= misses_after(0, answered),
    decreases answered.len(),
{
    if answered.len() > 0 {
        let init = answered.drop_last();
        lemma_only_lasting_silence_kills(init);
        assert forall|n: nat| silent_for(answered, n) <==> n <= misses_after(0, answered) by {
            if n > 0 {
                let m = (n - 1) as nat;
                if silent_for(answered, n) {
                    assert(!answered[answered.len() - 1]);
                    assert forall|i: int| init.len() - m <= i < init.len() implies !#[trigger] init[i] by {
                        assert(init[i] == answered[i]);
                    }
                    assert(silent_for(init, m));
                }
                if n <= misses_after(0, answered) {
                    assert(silent_for(init, m));
                    assert forall|i: int| answered.len() - n <= i < answered.len() implies
                        !#[trigger] answered[i] by {
                        if i < init.len() {
                            assert(init[i] == answered[i]);
                        }
                    }
                }
            }
        }
    } else {
        assert(forall|n: nat| silent_for(answered, n) <==> n == 0);
    }
}

/// The format that the peer announced last, or the wire's own where frames
/// arrive before an announcement, which can get lost.
pub fn announced_or_default_format(last_start_format: Option<(u32, u8)>) -> (f: (u32, u8))
    ensures
        f == (match last_start_format {
            Some(f) => f,
            None => (SAMPLE_RATE, 2u8),
        }),
{
    match last_start_format {
        Some(f) => f,
        None => (SAMPLE_RATE, WIRE_CHANNELS as u8),
    }
}

/// Whether received audio is to be played at all.
pub fn wants_receiver(settings: &AudioSettings) -> (b: bool)
    ensures
        b == settings@.receive,
{
    settings.receive
}

/// What becomes of a received audio frame.
#[derive(Clone, Copy, Debug, PartialEq, Eq, Structural)]
pub enum FrameFate {
    /// it is played; tells whether it is the first
    Play { first: bool },
    /// there is nothing to play it; tells how many were dropped, where this
    /// is worth a line in the log
    Discard { log: Option<u64> },
}

/// What is received of one peer's audio.
pub struct RxView {
    /// something plays the stream
    pub receiver: bool,
    /// the format announced last
    pub last_start_format: Option<(u32, u8)>,
    /// starting on the first frame failed and is not tried for every frame
    pub lazy_failed: bool,
    /// frames that were played
    pub received: int,
    /// frames that were dropped
    pub dropped: int,
}

impl RxView {
    /// Nothing was received yet.
    pub open spec fn fresh() -> RxView {
        RxView {
            receiver: false,
            last_start_format: None,
            lazy_failed: false,
            received: 0,
            dropped: 0,
        }
    }

    /// The format in which playback has to be started for a frame, if it has
    /// to be.
    pub open spec fn lazy_start(self) -> Option<(u32, u8)> {
        if self.receiver || self.lazy_failed {
            None
        } else {
            Some(
                match self.last_start_format {
                    Some(f) => f,
                    None => (SAMPLE_RATE, 2u8),
                },
            )
        }
    }

    /// After a stream command.
    pub open spec fn control(self, cmd: AudioControlCmd) -> RxView {
        match cmd {
            AudioControlCmd::Start { sample_rate, channels } => RxView {
                last_start_format: Some((sample_rate, channels)),
                lazy_failed: false,
                ..self
            },
            AudioControlCmd::Stop => RxView {
                receiver: false,
                last_start_format: None,
                lazy_failed: false,
                ..self
            },
        }
    }

    /// After playback was started for a frame, or could not be.
    pub open spec fn lazy_started(self, ok: bool) -> RxView {
        if ok {
            RxView { receiver: true, ..self }
        } else {
            RxView { receiver: false, lazy_failed: true, ..self }
        }
    }

    /// After playback was started for an announcement, or could not be.
    pub open spec fn control_started(self, ok: bool) -> RxView {
        RxView { receiver: ok, ..self }
    }

    /// After a frame.
    pub open spec fn frame(self) -> RxView {
        if self.receiver {
            RxView { received: self.received + 1, ..self }
        } else {
            RxView { dropped: self.dropped + 1, ..self }
        }
    }

    /// After playback failed.
    pub open spec fn failed(self) -> RxView {
        RxView { receiver: false, lazy_failed: false, ..self }
    }
}

/// What is received of one peer's audio. The surrounding program holds what
/// plays it.
pub struct AudioRxState {
    receiver: bool,
    last_start_format: Option<(u32, u8)>,
    lazy_failed: bool,
    received: u64,
    dropped: u64,
}

impl View for AudioRxState {
    type V = RxView;

    closed spec fn view(&self) -> RxView {
        RxView {
            receiver: self.receiver,
            last_start_format: self.last_start_format,
            lazy_failed: self.lazy_failed,
            received: self.received as int,
            dropped: self.dropped as int,
        }
    }
}

impl Default for AudioRxState {
    fn default() -> (s: AudioRxState)
        ensures
            s@ == RxView::fresh(),
    {
        AudioRxState {
            receiver: false,
            last_start_format: None,
            lazy_failed: false,
            received: 0,
            dropped: 0,
        }
    }
}

impl AudioRxState {
    /// Whether something plays the stream.
    pub fn has_receiver(&self) -> (b: bool)
        ensures
            b == self@.receiver,
    {
        self.receiver
    }

    /// Reacts to a stream command. A start is repeated while the stream is
    /// on, since it can get lost; where something already plays the stream
    /// nothing is started. Gives the format in which to start playback, if it
    /// is to be started, and the status to report.
    pub fn on_control(&mut self, cmd: AudioControlCmd, addr: SocketAddr) -> (r: (
        Option<(u32, u8)>,
        Option<ListenEvent>,
    ))
        ensures
            final(self)@ == old(self)@.control(cmd),
            r == (match cmd {
                AudioControlCmd::Start { sample_rate, channels } => (
                    if old(self)@.receiver {
                        None
                    } else {
                        Some((sample_rate, channels))
                    },
                    None::<ListenEvent>,
                ),
                AudioControlCmd::Stop => (
                    None::<(u32, u8)>,
                    Some(stream_event(addr, false)),
                ),
            }),
    {
        match cmd {
            AudioControlCmd::Start { sample_rate, channels } => {
                self.last_start_format = Some((sample_rate, channels));
                self.lazy_failed = false;
                if !self.receiver {
                    (Some((sample_rate, channels)), None)
                } else {
                    (None, None)
                }
            },
            AudioControlCmd::Stop => {
                self.receiver = false;
                self.last_start_format = None;
                self.lazy_failed = false;
                (None, Some(stream_event_of(addr, false)))
            },
        }
    }

    /// Notes whether playback could be started for an announcement. Gives the
    /// status to report.
    pub fn control_started(&mut self, ok: bool, addr: SocketAddr) -> (e: Option<ListenEvent>)
        ensures
            final(self)@ == old(self)@.control_started(ok),
            e == if ok {
                Some(stream_event(addr, true))
            } else {
                None
            },
    {
        self.receiver = ok;
        if ok {
            Some(stream_event_of(addr, true))
        } else {
            None
        }
    }

    /// The format in which playback has to be started before a frame can be
    /// played, if it has to be.
    pub fn ensure_receiver(&self) -> (f: Option<(u32, u8)>)
        ensures
            f == self@.lazy_start(),
    {
        if self.receiver || self.lazy_failed {
            None
        } else {
            Some(announced_or_default_format(self.last_start_format))
        }
    }

    /// Notes whether playback could be started for a frame. Gives the status
    /// to report.
    pub fn lazy_started(&mut self, ok: bool, addr: SocketAddr) -> (e: Option<ListenEvent>)
        ensures
            final(self)@ == old(self)@.lazy_started(ok),
            e == if ok {
                Some(stream_event(addr, true))
            } else {
                None
            },
    {
        self.receiver = ok;
        if ok {
            Some(stream_event_of(addr, true))
        } else {
            self.lazy_failed = true;
            None
        }
    }

    /// Counts a frame and tells what becomes of it.
    pub fn on_frame(&mut self) -> (fate: FrameFate)
        requires
            old(self)@.received < u64::MAX,
            old(self)@.dropped < u64::MAX,
        ensures
            final(self)@ == old(self)@.frame(),
            fate == if old(self)@.receiver {
                FrameFate::Play { first: final(self)@.received == 1 }
            } else {
                FrameFate::Discard {
                    log: if final(self)@.dropped == 1 || final(self)@.dropped % 1000 == 0 {
                        Some(final(self)@.dropped as u64)
                    } else {
                        None
                    },
                }
            },
    {
        if self.receiver {
            self.received = self.received + 1;
            FrameFate::Play { first: self.received == 1 }
        } else {
            self.dropped = self.dropped + 1;
            if self.dropped == 1 || self.dropped % 1000 == 0 {
                FrameFate::Discard { log: Some(self.dropped) }
            } else {
                FrameFate::Discard { log: None }
            }
        }
    }

    /// Drops a playback that failed, so that a later frame or announcement
    /// starts it anew. Gives the status to report.
    pub fn drop_if_failed(&mut self, healthy: bool, addr: SocketAddr) -> (e: Option<ListenEvent>)
        ensures
            if old(self)@.receiver && !healthy {
                final(self)@ == old(self)@.failed() && e == Some(stream_event(addr, false))
            } else {
                final(self)@ == old(self)@ && e is None
            },
    {
        if self.receiver && !healthy {
            self.receiver = false;
            self.lazy_failed = false;
            Some(stream_event_of(addr, false))
        } else {
            None
        }
    }

    /// Frames that were played.
    pub fn received(&self) -> (n: u64)
        ensures
            n == self@.received,
    {
        self.received
    }

    /// Frames that were dropped.
    pub fn dropped(&self) -> (n: u64)
        ensures
            n == self@.dropped,
    {
        self.dropped
    }
}

/// A start that is repeated while the stream plays changes nothing: the
/// second leaves what the first left, whatever became of the first.
pub proof fn lemma_start_is_idempotent(v: RxView, sample_rate: u32, channels: u8)
    requires
        v.receiver,
    ensures
        ({
            let cmd = AudioControlCmd::Start { sample_rate, channels };
            let w = v.control(cmd);
            w.receiver && w.control(cmd) == w
        }),
{
}

/// However a stream stood, a stop forgets it: the next frame starts playback
/// anew, in the wire's own format.
pub proof fn lemma_stop_forgets_the_stream(v: RxView)
    ensures
        v.control(AudioControlCmd::Stop).lazy_start() == Some((SAMPLE_RATE, 2u8)),
        v.control(AudioControlCmd::Stop).received == v.received,
        v.control(AudioControlCmd::Stop).dropped == v.dropped,
{
}

/// Starting on a frame is tried once: a failure is not repeated for every
/// frame, until an announcement or a stop allows it again.
pub proof fn lemma_lazy_start_is_tried_once(v: RxView, cmd: AudioControlCmd)
    ensures
        v.lazy_started(false).lazy_start() is None,
        v.lazy_started(false).frame().lazy_start() is None,
        v.lazy_started(false).control(cmd).lazy_start() is Some,
{
}

/// Every frame is counted once, as played or as dropped.
pub proof fn lemma_every_frame_is_counted(v: RxView)
    ensures
        v.frame().received + v.frame().dropped == v.received + v.dropped + 1,
        v.receiver ==> v.frame().dropped == v.dropped,
        !v.receiver ==> v.frame().received == v.received,
{
}

/// What a datagram from a peer asks for.
#[derive(Debug)]
pub enum ReadStep {
    /// pass on an event
    Deliver(ListenEvent),
    /// play an audio frame; first start playback, where a format is given
    Audio { start: Option<(u32, u8)>, seq: u32, payload: Range<usize> },
    /// play audio frames, in this order; first start playback, where a format
    /// is given
    Batch { start: Option<(u32, u8)>, frames: Vec<AudioFrame> },
    /// start playback, where a format is given, or drop what plays, where a
    /// status is
    Control { start: Option<(u32, u8)>, event: Option<ListenEvent> },
    /// nothing: the datagram could not be read
    Skip(ProtocolError),
}

/// What a datagram asks for, as a value.
pub enum ReadStepView {
    Deliver(ListenEvent),
    Audio { start: Option<(u32, u8)>, seq: u32, payload: Range<usize> },
    Batch { start: Option<(u32, u8)>, frames: Seq<AudioFrame> },
    Control { start: Option<(u32, u8)>, event: Option<ListenEvent> },
    Skip(ProtocolError),
}

impl View for ReadStep {
    type V = ReadStepView;

    open spec fn view(&self) -> ReadStepView {
        match *self {
            ReadStep::Deliver(event) => ReadStepView::Deliver(event),
            ReadStep::Audio { start, seq, payload } => ReadStepView::Audio { start, seq, payload },
            ReadStep::Batch { start, frames } => ReadStepView::Batch { start, frames: frames@ },
            ReadStep::Control { start, event } => ReadStepView::Control { start, event },
            ReadStep::Skip(e) => ReadStepView::Skip(e),
        }
    }
}

/// How often the status of an audio stream is reported, in milliseconds.
pub const STATS_INTERVAL_MS: u64 = 1_000;

/// Reads from one accepted connection.
pub struct Reader {
    addr: SocketAddr,
    rx: AudioRxState,
    last_stats_ms: u64,
}

/// What is known of one accepted connection.
pub struct ReaderView {
    pub addr: SocketAddr,
    pub rx: RxView,
    /// when the status of the stream was reported last
    pub last_stats_ms: u64,
}

impl View for Reader {
    type V = ReaderView;

    closed spec fn view(&self) -> ReaderView {
        ReaderView { addr: self.addr, rx: self.rx@, last_stats_ms: self.last_stats_ms }
    }
}

impl ReaderView {
    /// What a datagram asks for.
    pub open spec fn step(self, d: Result<DatagramView, ProtocolError>) -> ReadStepView {
        match d {
            Ok(DatagramView::Event(event)) => ReadStepView::Deliver(
                ListenEvent::Msg { event, addr: self.addr },
            ),
            Ok(DatagramView::Audio { seq, ts_ms, payload_range }) => ReadStepView::Audio {
                start: self.rx.lazy_start(),
                seq,
                payload: payload_range,
            },
            Ok(DatagramView::AudioBatch(frames)) => ReadStepView::Batch {
                start: self.rx.lazy_start(),
                frames,
            },
            Ok(DatagramView::AudioControl(AudioControlCmd::Start { sample_rate, channels })) =>
                ReadStepView::Control {
                start: if self.rx.receiver {
                    None
                } else {
                    Some((sample_rate, channels))
                },
                event: None,
            },
            Ok(DatagramView::AudioControl(AudioControlCmd::Stop)) => ReadStepView::Control {
                start: None,
                event: Some(stream_event(self.addr, false)),
            },
            Err(e) => ReadStepView::Skip(e),
        }
    }

    /// What is known after a datagram. An announcement puts off the next
    /// report.
    pub open spec fn after(self, d: Result<DatagramView, ProtocolError>, now_ms: u64) -> ReaderView {
        match d {
            Ok(DatagramView::AudioControl(cmd)) => ReaderView {
                rx: self.rx.control(cmd),
                last_stats_ms: if cmd is Start {
                    now_ms
                } else {
                    self.last_stats_ms
                },
                ..self
            },
            _ => self,
        }
    }

    /// The status of the stream is due.
    pub open spec fn stats_due(self, now_ms: u64) -> bool {
        now_ms >= self.last_stats_ms && now_ms - self.last_stats_ms >= STATS_INTERVAL_MS
    }
}

impl Reader {
    /// A connection that nothing was read from.
    pub fn new(addr: SocketAddr, now_ms: u64) -> (r: Reader)
        ensures
            r@ == (ReaderView { addr, rx: RxView::fresh(), last_stats_ms: now_ms }),
    {
        Reader { addr, rx: AudioRxState::default(), last_stats_ms: now_ms }
    }

    /// Reads a datagram. Whatever it holds, it proves the peer alive. One
    /// that cannot be read is skipped, which keeps the connection open to
    /// peers that send what is not known here yet.
    pub fn on_datagram(&mut self, buf: &[u8], now_ms: u64, heard: &mut AddrSet) -> (step: ReadStep)
        ensures
            final(heard)@ == old(heard)@.insert(old(self)@.addr),
            step@ == old(self)@.step(parse_datagram(buf@)),
            final(self)@ == old(self)@.after(parse_datagram(buf@), now_ms),
    {
        heard.insert(self.addr);
        match decode(buf) {
            Ok(Datagram::Event(event)) => ReadStep::Deliver(
                ListenEvent::Msg { event, addr: self.addr },
            ),
            Ok(Datagram::Audio { seq, ts_ms: _, payload_range }) => ReadStep::Audio {
                start: self.rx.ensure_receiver(),
                seq,
                payload: payload_range,
            },
            Ok(Datagram::AudioBatch(frames)) => ReadStep::Batch {
                start: self.rx.ensure_receiver(),
                frames,
            },
            Ok(Datagram::AudioControl(cmd)) => {
                if let AudioControlCmd::Start { .. } = cmd {
                    self.last_stats_ms = now_ms;
                }
                let (start, event) = self.rx.on_control(cmd, self.addr);
                ReadStep::Control { start, event }
            },
            Err(e) => ReadStep::Skip(e),
        }
    }

    /// Notes whether playback could be started for an announcement.
    pub fn control_started(&mut self, ok: bool) -> (e: Option<ListenEvent>)
        ensures
            final(self)@ == (ReaderView { rx: old(self)@.rx.control_started(ok), ..old(self)@ }),
            e == if ok {
                Some(stream_event(old(self)@.addr, true))
            } else {
                None
            },
    {
        self.rx.control_started(ok, self.addr)
    }

    /// Notes whether playback could be started for a frame.
    pub fn lazy_started(&mut self, ok: bool) -> (e: Option<ListenEvent>)
        ensures
            final(self)@ == (ReaderView { rx: old(self)@.rx.lazy_started(ok), ..old(self)@ }),
            e == if ok {
                Some(stream_event(old(self)@.addr, true))
            } else {
                None
            },
    {
        self.rx.lazy_started(ok, self.addr)
    }

    /// Counts a frame and tells what becomes of it.
    pub fn on_frame(&mut self) -> (fate: FrameFate)
        requires
            old(self)@.rx.received < u64::MAX,
            old(self)@.rx.dropped < u64::MAX,
        ensures
            final(self)@ == (ReaderView { rx: old(self)@.rx.frame(), ..old(self)@ }),
            fate == if old(self)@.rx.receiver {
                FrameFate::Play { first: final(self)@.rx.received == 1 }
            } else {
                FrameFate::Discard {
                    log: if final(self)@.rx.dropped == 1 || final(self)@.rx.dropped % 1000 == 0 {
                        Some(final(self)@.rx.dropped as u64)
                    } else {
                        None
                    },
                }
            },
    {
        self.rx.on_frame()
    }

    /// Whether the status of the stream is due, which is looked at after
    /// every datagram.
    pub fn stats_due(&self, now_ms: u64) -> (b: bool)
        ensures
            b == self@.stats_due(now_ms),
    {
        now_ms >= self.last_stats_ms && now_ms - self.last_stats_ms >= STATS_INTERVAL_MS
    }

    /// Reports the status of the stream: that it failed, how it stands, or
    /// nothing where there is none. `healthy` and `stats` are those of what
    /// plays it.
    pub fn report(&mut self, healthy: bool, stats: AudioStats, now_ms: u64) -> (e: Option<
        ListenEvent,
    >)
        ensures
            final(self)@ == (ReaderView {
                rx: if old(self)@.rx.receiver && !healthy {
                    old(self)@.rx.failed()
                } else {
                    old(self)@.rx
                },
                last_stats_ms: now_ms,
                ..old(self)@
            }),
            e == if !old(self)@.rx.receiver {
                None
            } else if healthy {
                Some(
                    ListenEvent::AudioStream {
                        addr: old(self)@.addr,
                        active: true,
                        latency_ms: stats.latency_ms,
                        packets_lost: stats.packets_lost,
                        level: stats.level,
                    },
                )
            } else {
                Some(stream_event(old(self)@.addr, false))
            },
    {
        self.last_stats_ms = now_ms;
        match self.rx.drop_if_failed(healthy, self.addr) {
            Some(e) => Some(e),
            None => if self.rx.has_receiver() {
                Some(
                    ListenEvent::AudioStream {
                        addr: self.addr,
                        active: true,
                        latency_ms: stats.latency_ms,
                        packets_lost: stats.packets_lost,
                        level: stats.level,
                    },
                )
            } else {
                None
            },
        }
    }

    /// What is reported once the connection ended: the end of the stream, if
    /// one was on, and the end of the connection.
    pub fn closed(&self, heard: &mut AddrSet) -> (events: Vec<ListenEvent>)
        ensures
            final(heard)@ == old(heard)@.remove(self@.addr),
            events@ == if self@.rx.receiver {
                seq![
                    stream_event(self@.addr, false),
                    ListenEvent::Disconnected { addr: self@.addr },
                ]
            } else {
                seq![ListenEvent::Disconnected { addr: self@.addr }]
            },
    {
        let _ = heard.remove(self.addr);
        let mut events: Vec<ListenEvent> = Vec::new();
        if self.rx.has_receiver() {
            events.push(stream_event_of(self.addr, false));
        }
        events.push(ListenEvent::Disconnected { addr: self.addr });
        assert(events@ =~= if self@.rx.receiver {
            seq![stream_event(self@.addr, false), ListenEvent::Disconnected { addr: self@.addr }]
        } else {
            seq![ListenEvent::Disconnected { addr: self@.addr }]
        });
        events
    }

    /// Frames that were played.
    pub fn received(&self) -> (n: u64)
        ensures
            n == self@.rx.received,
    {
        self.rx.received()
    }

    /// Frames that were dropped.
    pub fn dropped(&self) -> (n: u64)
        ensures
            n == self@.rx.dropped,
    {
        self.rx.dropped()
    }
}

} // verus!
