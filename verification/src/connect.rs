//! Dialing the server and keeping the connection to it.

pub mod laws;

use crate::audio::{SAMPLE_RATE, WIRE_CHANNELS};
use crate::datagram::{datagram_bytes, decode, encode_error, encode_into, parse_datagram};
use crate::datagram::batch::{batch_bytes, batch_error, frame_bytes, frame_error, frame_views};
use crate::datagram::batch::{holds_payload, lemma_batch_roundtrip, received_frames};
use crate::datagram::batch::{AudioFrameRef, FrameView, BATCH_HEADER_SIZE, MAX_BATCH};
use crate::datagram::{AudioControlCmd, Datagram, DatagramRef, DatagramView};
use crate::datagram::{AUDIO_CONTROL_SIZE, MAX_DATAGRAM_SIZE};
use crate::net::{ip_of, socket_addr, IpAddr, SocketAddr};
use crate::proto::{type_byte, EventType, ProtoEvent, ProtocolError};
use std::collections::VecDeque;
use vstd::prelude::*;

verus! {

/// How long a handshake may take, in milliseconds.
pub const CONNECTION_TIMEOUT_MS: u64 = 5_000;

/// How long a test waits for the user to authorize this device over there, in
/// milliseconds.
pub const AUTHORIZATION_WAIT_MS: u64 = 45_000;

/// Pause between handshakes that are turned away, in milliseconds: time for
/// the user to fill in the form.
pub const AUTHORIZATION_RETRY_MS: u64 = 15_000;

/// Pause between attempts while the server cannot be reached, in
/// milliseconds.
pub const RECONNECT_INTERVAL_MS: u64 = 3_000;

/// How often the start of the audio stream is announced again, in
/// milliseconds.
pub const START_RETRANSMIT_MS: u64 = 2_000;

/// Why there is no connection to the server.
#[derive(Debug)]
pub enum ConnectError {
    /// no socket could be opened
    Bind(String),
    /// the handshake failed
    Dtls(String),
    /// the connection failed
    Webrtc(String),
    /// there is nothing to connect to
    NotConnected,
    /// the handshake took too long
    Timeout,
    /// the server does not know this device
    AuthorizationRequired,
}

/// Why there is no connection to the server, as a value.
pub enum ConnectErrorView {
    Bind(Seq<char>),
    Dtls(Seq<char>),
    Webrtc(Seq<char>),
    NotConnected,
    Timeout,
    AuthorizationRequired,
}

impl View for ConnectError {
    type V = ConnectErrorView;

    open spec fn view(&self) -> ConnectErrorView {
        match self {
            ConnectError::Bind(e) => ConnectErrorView::Bind(e@),
            ConnectError::Dtls(e) => ConnectErrorView::Dtls(e@),
            ConnectError::Webrtc(e) => ConnectErrorView::Webrtc(e@),
            ConnectError::NotConnected => ConnectErrorView::NotConnected,
            ConnectError::Timeout => ConnectErrorView::Timeout,
            ConnectError::AuthorizationRequired => ConnectErrorView::AuthorizationRequired,
        }
    }
}

/// The message for a failed connection.
pub open spec fn connect_error_text(e: ConnectErrorView) -> Seq<char> {
    match e {
        ConnectErrorView::Bind(e) => e,
        ConnectErrorView::Dtls(e) => e,
        ConnectErrorView::Webrtc(e) => e,
        ConnectErrorView::NotConnected => "not connected"@,
        ConnectErrorView::Timeout => "Connection timed out"@,
        ConnectErrorView::AuthorizationRequired =>
            "the remote server rejected this certificate; authorize this computer in DeskUnion on the remote machine, then try again"@,
    }
}

impl ConnectError {
    /// The message for the user.
    pub fn to_string(&self) -> (s: String)
        ensures
            s@ == connect_error_text(self@),
    {
        match self {
            ConnectError::Bind(e) => e.clone(),
            ConnectError::Dtls(e) => e.clone(),
            ConnectError::Webrtc(e) => e.clone(),
            ConnectError::NotConnected => "not connected".to_owned(),
            ConnectError::Timeout => "Connection timed out".to_owned(),
            ConnectError::AuthorizationRequired =>
                "the remote server rejected this certificate; authorize this computer in DeskUnion on the remote machine, then try again".to_owned(),
        }
    }
}

/// Where the server can be reached.
#[derive(Debug)]
pub struct ServerTarget {
    pub ips: Vec<IpAddr>,
    pub port: u16,
}

/// Where the server can be reached, as a value.
pub struct TargetView {
    pub ips: Seq<IpAddr>,
    pub port: u16,
}

impl View for ServerTarget {
    type V = TargetView;

    open spec fn view(&self) -> TargetView {
        TargetView { ips: self.ips@, port: self.port }
    }
}

impl Clone for ServerTarget {
    fn clone(&self) -> (r: ServerTarget)
        ensures
            r@ == self@,
    {
        ServerTarget { ips: crate::ipc::clone_ips(&self.ips), port: self.port }
    }
}

/// The socket addresses at which a server can be reached.
pub open spec fn target_addrs(t: TargetView) -> Seq<SocketAddr> {
    t.ips.map_values(|ip: IpAddr| socket_addr(ip, t.port))
}

impl ServerTarget {
    /// The socket addresses at which the server can be reached.
    pub fn addrs(&self) -> (r: Vec<SocketAddr>)
        ensures
            r@ == target_addrs(self@),
    {
        let mut r: Vec<SocketAddr> = Vec::new();
        let mut i: usize = 0;
        while i < self.ips.len()
            invariant
                i <= self.ips@.len(),
                r@ =~= target_addrs(self@).take(i as int),
            decreases self.ips@.len() - i,
        {
            r.push(SocketAddr::new(self.ips[i], self.port));
            i = i + 1;
        }
        assert(r@ =~= target_addrs(self@));
        r
    }

    /// Whether two targets are the same.
    pub fn same(&self, other: &ServerTarget) -> (b: bool)
        ensures
            b == (self@ == other@),
    {
        if self.port != other.port || self.ips.len() != other.ips.len() {
            return false;
        }
        let mut i: usize = 0;
        while i < self.ips.len()
            invariant
                i <= self.ips@.len(),
                self.port == other.port,
                self.ips@.len() == other.ips@.len(),
                forall|k: int| 0 <= k < i ==> self.ips@[k] == other.ips@[k],
            decreases self.ips@.len() - i,
        {
            if self.ips[i] != other.ips[i] {
                assert(self@.ips[i as int] != other@.ips[i as int]);
                return false;
            }
            i = i + 1;
        }
        assert(self@.ips =~= other@.ips);
        true
    }
}

/// A target that is there, as a value.
pub open spec fn opt_target(t: Option<ServerTarget>) -> Option<TargetView> {
    match t {
        Some(t) => Some(t@),
        None => None,
    }
}

/// Whether two targets, each of which may be missing, are the same.
fn same_target(a: &Option<ServerTarget>, b: &Option<ServerTarget>) -> (r: bool)
    ensures
        r == (opt_target(*a) == opt_target(*b)),
{
    match (a, b) {
        (Some(x), Some(y)) => x.same(y),
        (None, None) => true,
        _ => false,
    }
}

/// The address that stands for any interface, in the family of `addr`.
pub open spec fn unspecified(addr: SocketAddr) -> SocketAddr {
    match addr {
        SocketAddr::V4 { .. } => socket_addr(IpAddr::V4(0), 0),
        SocketAddr::V6 { .. } => socket_addr(IpAddr::V6(0), 0),
    }
}

/// The address that stands for any interface, in the family of `addr`.
pub fn unspecified_addr(addr: SocketAddr) -> (r: SocketAddr)
    ensures
        r == unspecified(addr),
{
    match addr {
        SocketAddr::V4 { .. } => SocketAddr::new(IpAddr::V4(0), 0),
        SocketAddr::V6 { .. } => SocketAddr::new(IpAddr::V6(0), 0),
    }
}

/// The local address that a dialing socket is bound to: that of the interface
/// over which `addr` is reached, where that is known, and any port of it. A
/// socket bound to every interface would look like a server's.
pub fn local_bind_addr(addr: SocketAddr, routed: Option<SocketAddr>) -> (r: SocketAddr)
    ensures
        r == (match routed {
            Some(local) => socket_addr(ip_of(local), 0),
            None => unspecified(addr),
        }),
{
    match routed {
        Some(local) => SocketAddr::new(local.ip(), 0),
        None => unspecified_addr(addr),
    }
}

/// The error that is kept of two: that the server does not know this device
/// is what the user can act on, so nothing replaces it.
pub open spec fn kept_error(
    best: Option<ConnectErrorView>,
    e: ConnectErrorView,
) -> Option<ConnectErrorView> {
    if e is AuthorizationRequired || !(best matches Some(b) && b is AuthorizationRequired) {
        Some(e)
    } else {
        best
    }
}

/// The error that is kept of several, in the order they came.
pub open spec fn best_error(errors: Seq<ConnectErrorView>) -> Option<ConnectErrorView>
    decreases errors.len(),
{
    if errors.len() == 0 {
        None
    } else {
        kept_error(best_error(errors.drop_last()), errors.last())
    }
}

/// If any attempt was turned away for want of authorization that is the
/// error, and otherwise it is the last one.
pub proof fn lemma_best_error(errors: Seq<ConnectErrorView>)
    requires
        errors.len() > 0,
    ensures
        (exists|i: int|
            0 <= i < errors.len() && (#[trigger] errors[i]) is AuthorizationRequired)
            ==> best_error(errors) == Some(ConnectErrorView::AuthorizationRequired),
        (forall|i: int|
            0 <= i < errors.len() ==> !((#[trigger] errors[i]) is AuthorizationRequired))
            ==> best_error(errors) == Some(errors.last()),
    decreases errors.len(),
{
    let init = errors.drop_last();
    if init.len() > 0 {
        lemma_best_error(init);
        assert(forall|i: int| 0 <= i < init.len() ==> init[i] == errors[i]);
        if exists|i: int| 0 <= i < errors.len() && (#[trigger] errors[i]) is AuthorizationRequired {
            let i = choose|i: int|
                0 <= i < errors.len() && (#[trigger] errors[i]) is AuthorizationRequired;
            if i < init.len() {
                assert(init[i] is AuthorizationRequired);
            } else {
                assert(errors.last() is AuthorizationRequired);
            }
        }
        if forall|i: int|
            0 <= i < errors.len() ==> !((#[trigger] errors[i]) is AuthorizationRequired) {
            assert(forall|i: int|
                0 <= i < init.len() ==> !((#[trigger] init[i]) is AuthorizationRequired));
            assert(!(errors[errors.len() - 1] is AuthorizationRequired));
        }
    } else {
        assert(best_error(init) is None);
        assert(errors[0] == errors.last());
    }
}

/// The error of an attempt that reached the server at none of its addresses.
pub struct Attempts {
    best: Option<ConnectError>,
}

impl Attempts {
    /// The error that is kept.
    pub closed spec fn best(self) -> Option<ConnectErrorView> {
        match self.best {
            Some(e) => Some(e@),
            None => None,
        }
    }

    /// Nothing failed yet.
    pub fn new() -> (a: Attempts)
        ensures
            a.best() == best_error(seq![]),
    {
        Attempts { best: None }
    }

    /// One address could not be reached.
    pub fn failed(&mut self, e: ConnectError)
        ensures
            final(self).best() == kept_error(old(self).best(), e@),
    {
        let keep: bool = match (&e, &self.best) {
            (ConnectError::AuthorizationRequired, _) => true,
            (_, Some(ConnectError::AuthorizationRequired)) => false,
            _ => true,
        };
        if keep {
            self.best = Some(e);
        }
    }

    /// No address is left to wait for.
    pub fn exhausted(self) -> (e: ConnectError)
        ensures
            e@ == (match self.best() {
                Some(e) => e,
                None => ConnectErrorView::NotConnected,
            }),
    {
        match self.best {
            Some(e) => e,
            None => ConnectError::NotConnected,
        }
    }
}

/// Whether a test of the connection tries again after it was turned away: as
/// long as the user may still be authorizing this device.
pub fn tries_again(e: &ConnectError, now_ms: u64, started_ms: u64) -> (b: bool)
    ensures
        b == (e@ is AuthorizationRequired && now_ms < started_ms + AUTHORIZATION_WAIT_MS),
{
    match e {
        ConnectError::AuthorizationRequired => now_ms < started_ms || now_ms - started_ms
            < AUTHORIZATION_WAIT_MS,
        _ => false,
    }
}

/// Whether a datagram proves to a test that the server is there and knows
/// this device: it probes, or answers the greeting.
pub fn proves_alive(buf: &[u8]) -> (b: bool)
    ensures
        b == (match parse_datagram(buf@) {
            Ok(DatagramView::Event(ProtoEvent::Ping)) => true,
            Ok(DatagramView::Event(ProtoEvent::Hello { .. })) => true,
            _ => false,
        }),
{
    match decode(buf) {
        Ok(Datagram::Event(ProtoEvent::Ping)) => true,
        Ok(Datagram::Event(ProtoEvent::Hello { .. })) => true,
        _ => false,
    }
}

/// What a connection tells input emulation.
#[derive(Debug)]
pub enum ConnectionEvent {
    /// the server sent an event
    Message { addr: SocketAddr, event: ProtoEvent },
    /// the server sent something else, which proves it alive
    PeerAlive { addr: SocketAddr },
    /// connected to the server
    Connected { addr: SocketAddr, fingerprint: String },
    /// the connection ended
    Disconnected { addr: SocketAddr },
}

/// What the surrounding program does about the connection.
#[derive(Clone, Copy, Debug, PartialEq, Eq, Structural)]
pub enum DialAction {
    /// tell the server that the audio stream ends
    SendAudioStop(SocketAddr),
    /// close the connection
    Close(SocketAddr),
    /// begin to dial
    StartDialing,
}

/// What follows an attempt to dial.
#[derive(Clone, Copy, Debug, PartialEq, Eq, Structural)]
pub enum DialStep {
    /// wait, and dial again
    RetryLater,
    /// close the connection, which is to the wrong server, and dial again
    CloseAndRetry,
    /// tell that the server is connected, greet it and serve the connection
    Serve(SocketAddr),
}

/// What is known of the connection to the server.
pub struct DialerView {
    /// the address of the connection
    pub conn: Option<SocketAddr>,
    /// the server to dial
    pub target: Option<TargetView>,
    /// dialing is going on
    pub connecting: bool,
}

impl DialerView {
    /// Dialing begins, unless it is going on or there is a connection.
    pub open spec fn may_dial(self) -> bool {
        !self.connecting && self.conn is None
    }

    /// With a server to dial, or none. A change ends the connection.
    pub open spec fn with_server(self, target: Option<TargetView>) -> DialerView {
        if self.target == target {
            self
        } else {
            DialerView { conn: None, target, ..self }
        }
    }

    /// Once the connection to an address has ended.
    pub open spec fn without(self, addr: SocketAddr) -> DialerView {
        if self.conn == Some(addr) {
            DialerView { conn: None, ..self }
        } else {
            self
        }
    }

    /// The server is dialed again when a connection has ended.
    pub open spec fn redials(self) -> bool {
        self.target is Some
    }

    /// The server to dial next: none of whose addresses is known is not
    /// dialed.
    pub open spec fn next(self) -> Option<TargetView> {
        match self.target {
            Some(t) if t.ips.len() > 0 => Some(t),
            _ => None,
        }
    }

    /// What ends the connection.
    pub open spec fn hang_up(self) -> Seq<DialAction> {
        match self.conn {
            Some(addr) => seq![DialAction::SendAudioStop(addr), DialAction::Close(addr)],
            None => seq![],
        }
    }
}

/// The connection to the server: dialed as long as there is a server to dial.
pub struct Dialer {
    conn: Option<SocketAddr>,
    target: Option<ServerTarget>,
    connecting: bool,
}

impl View for Dialer {
    type V = DialerView;

    closed spec fn view(&self) -> DialerView {
        DialerView {
            conn: self.conn,
            target: opt_target(self.target),
            connecting: self.connecting,
        }
    }
}

impl Dialer {
    /// No server to dial.
    pub fn new() -> (d: Dialer)
        ensures
            d@ == (DialerView { conn: None, target: None, connecting: false }),
    {
        Dialer { conn: None, target: None, connecting: false }
    }

    /// Sets the server to dial, or none. A change ends the current
    /// connection, and a new server is dialed.
    pub fn set_server(&mut self, target: Option<ServerTarget>) -> (actions: Vec<DialAction>)
        ensures
            final(self)@ == old(self)@.with_server(opt_target(target)),
            actions@ == if old(self)@.target == opt_target(target) {
                Seq::<DialAction>::empty()
            } else if target is Some {
                old(self)@.hang_up().push(DialAction::StartDialing)
            } else {
                old(self)@.hang_up()
            },
    {
        let mut actions: Vec<DialAction> = Vec::new();
        if same_target(&self.target, &target) {
            return actions;
        }
        let dial: bool = target.is_some();
        self.target = target;
        if let Some(addr) = self.conn {
            self.conn = None;
            actions.push(DialAction::SendAudioStop(addr));
            actions.push(DialAction::Close(addr));
        }
        assert(actions@ =~= old(self)@.hang_up());
        if dial {
            actions.push(DialAction::StartDialing);
        }
        actions
    }

    /// Begins to dial, unless that is going on or there is a connection.
    pub fn ensure_connecting(&mut self) -> (start: bool)
        ensures
            start == old(self)@.may_dial(),
            final(self)@ == (DialerView {
                connecting: old(self)@.connecting || start,
                ..old(self)@
            }),
    {
        if self.connecting || self.conn.is_some() {
            return false;
        }
        self.connecting = true;
        true
    }

    /// The server to dial next. Dialing ends where there is none, or none of
    /// its addresses is known.
    pub fn next_target(&self) -> (t: Option<ServerTarget>)
        ensures
            opt_target(t) == self@.next(),
    {
        match &self.target {
            Some(t) => if t.ips.len() == 0 {
                None
            } else {
                Some(t.clone())
            },
            None => None,
        }
    }

    /// Notes what came of dialing `dialed`. The server to dial may have
    /// changed in the meantime.
    pub fn dialed(&mut self, dialed: &ServerTarget, addr: Option<SocketAddr>) -> (step: DialStep)
        ensures
            step == (match addr {
                None => DialStep::RetryLater,
                Some(addr) => if old(self)@.target == Some(dialed@) {
                    DialStep::Serve(addr)
                } else {
                    DialStep::CloseAndRetry
                },
            }),
            final(self)@ == (match step {
                DialStep::Serve(addr) => DialerView { conn: Some(addr), ..old(self)@ },
                _ => old(self)@,
            }),
    {
        let addr = match addr {
            None => return DialStep::RetryLater,
            Some(addr) => addr,
        };
        let current: bool = match &self.target {
            Some(t) => t.same(dialed),
            None => false,
        };
        if !current {
            return DialStep::CloseAndRetry;
        }
        self.conn = Some(addr);
        DialStep::Serve(addr)
    }

    /// Notes that dialing ended.
    pub fn dialing_ended(&mut self)
        ensures
            final(self)@ == (DialerView { connecting: false, ..old(self)@ }),
    {
        self.connecting = false;
    }

    /// Notes that a connection ended. Tells whether the server is to be
    /// dialed again.
    pub fn session_ended(&mut self, addr: SocketAddr) -> (redial: bool)
        ensures
            redial == old(self)@.redials(),
            final(self)@ == old(self)@.without(addr),
    {
        if let Some(a) = self.conn {
            if a == addr {
                self.conn = None;
            }
        }
        self.target.is_some()
    }

    /// What closes the connection to an address, if there is one. The
    /// connection is forgotten once it has ended.
    pub fn close(&self, addr: SocketAddr) -> (actions: Vec<DialAction>)
        ensures
            actions@ == if self@.conn == Some(addr) {
                self@.hang_up()
            } else {
                seq![]
            },
    {
        let mut actions: Vec<DialAction> = Vec::new();
        if self.is_connected(addr) {
            actions.push(DialAction::SendAudioStop(addr));
            actions.push(DialAction::Close(addr));
        }
        assert(actions@ =~= if self@.conn == Some(addr) {
            self@.hang_up()
        } else {
            seq![]
        });
        actions
    }

    /// Whether there is a connection to an address. A reply to any other is
    /// dropped.
    pub fn is_connected(&self, addr: SocketAddr) -> (b: bool)
        ensures
            b == (self@.conn == Some(addr)),
    {
        match self.conn {
            Some(a) => a == addr,
            None => false,
        }
    }
}

/// Setting no server ends the connection for good: it is closed, it is not
/// dialed again when it has ended, whichever it was, and there is no server
/// to dial next.
pub proof fn lemma_no_server_means_no_redial(v: DialerView, ended: SocketAddr)
    ensures
        v.conn matches Some(addr) ==> v.hang_up().contains(DialAction::Close(addr)),
        !v.hang_up().contains(DialAction::StartDialing),
        ({
            let w = v.with_server(None);
            &&& w.conn is None || v.target is None
            &&& !w.redials()
            &&& !w.without(ended).redials()
            &&& w.without(ended).next() is None
        }),
{
    if let Some(addr) = v.conn {
        assert(v.hang_up()[1] == DialAction::Close(addr));
    }
}

/// What a datagram from the server asks for.
#[derive(Debug)]
pub enum ServerStep {
    /// nothing: it is the answer to the greeting, which is not answered again
    Greeted([u8; 8]),
    /// pass on to input emulation
    Tell(ConnectionEvent),
}

/// What a datagram from the server asks for. Audio is not expected from
/// there, and what cannot be read is from a newer version: both are skipped,
/// but prove the server alive.
pub fn on_server_datagram(addr: SocketAddr, buf: &[u8]) -> (step: ServerStep)
    ensures
        step == (match parse_datagram(buf@) {
            Ok(DatagramView::Event(ProtoEvent::Hello { commit })) => ServerStep::Greeted(commit),
            Ok(DatagramView::Event(event)) => ServerStep::Tell(
                ConnectionEvent::Message { addr, event },
            ),
            _ => ServerStep::Tell(ConnectionEvent::PeerAlive { addr }),
        }),
{
    match decode(buf) {
        Ok(Datagram::Event(ProtoEvent::Hello { commit })) => ServerStep::Greeted(commit),
        Ok(Datagram::Event(event)) => ServerStep::Tell(ConnectionEvent::Message { addr, event }),
        _ => ServerStep::Tell(ConnectionEvent::PeerAlive { addr }),
    }
}

/// The command that announces the audio stream, or its end.
pub open spec fn audio_command(start: bool) -> AudioControlCmd {
    if start {
        AudioControlCmd::Start { sample_rate: SAMPLE_RATE, channels: 2 }
    } else {
        AudioControlCmd::Stop
    }
}

/// The datagram that announces the audio stream, or its end.
pub fn audio_control_datagram(start: bool) -> (out: [u8; AUDIO_CONTROL_SIZE])
    ensures
        out@ == datagram_bytes(DatagramRef::AudioControl(audio_command(start))),
        parse_datagram(out@) == Ok::<DatagramView, ProtocolError>(
            DatagramView::AudioControl(audio_command(start)),
        ),
{
    let mut out: [u8; AUDIO_CONTROL_SIZE] = [0u8; AUDIO_CONTROL_SIZE];
    let cmd = if start {
        AudioControlCmd::Start { sample_rate: SAMPLE_RATE, channels: WIRE_CHANNELS as u8 }
    } else {
        AudioControlCmd::Stop
    };
    let dg = DatagramRef::AudioControl(cmd);
    let _ = encode_into(dg, &mut out);
    proof {
        broadcast use crate::wire::lemma_be32_len;

        assert(datagram_bytes(dg).len() == AUDIO_CONTROL_SIZE);
        assert(encode_error(dg, AUDIO_CONTROL_SIZE) is None);
        assert(out@ =~= datagram_bytes(dg));
        crate::datagram::lemma_decode_encode(dg, AUDIO_CONTROL_SIZE, out@);
    }
    out
}

/// An encoded audio frame: sequence number, time stamp and payload.
pub type EncodedFrame = (u32, u32, Vec<u8>);

/// Frames per audio datagram: sending is expensive, so frames that wait are
/// sent together.
pub const AUDIO_BATCH_FRAMES: usize = 3;

/// Takes the frames that are sent together: the one that just came and those
/// that already wait behind it, up to a batch. It never waits for more, which
/// would hold back input.
pub fn gather_batch(first: EncodedFrame, queue: &mut VecDeque<EncodedFrame>) -> (batch: Vec<
    EncodedFrame,
>)
    ensures
        batch@ + final(queue)@ == seq![first] + old(queue)@,
        batch@.len() == if old(queue)@.len() + 1 < AUDIO_BATCH_FRAMES {
            old(queue)@.len() + 1
        } else {
            AUDIO_BATCH_FRAMES as nat
        },
{
    let mut batch: Vec<EncodedFrame> = Vec::new();
    batch.push(first);
    assert(batch@ =~= seq![first]);
    loop
        invariant
            1 <= batch@.len() <= AUDIO_BATCH_FRAMES,
            batch@ + queue@ =~= seq![first] + old(queue)@,
        ensures
            batch@ + queue@ =~= seq![first] + old(queue)@,
            1 <= batch@.len() <= AUDIO_BATCH_FRAMES,
            batch@.len() == AUDIO_BATCH_FRAMES || queue@.len() == 0,
        decreases AUDIO_BATCH_FRAMES - batch@.len(),
    {
        if batch.len() >= AUDIO_BATCH_FRAMES {
            break;
        }
        let ghost b0 = batch@;
        let ghost q0 = queue@;
        match queue.pop_front() {
            Some(frame) => {
                batch.push(frame);
                assert(batch@ + queue@ =~= b0 + q0);
            },
            None => {
                break;
            },
        }
    }
    assert(batch@.len() + queue@.len() == 1 + old(queue)@.len()) by {
        assert((batch@ + queue@).len() == (seq![first] + old(queue)@).len());
    }
    batch
}

/// How a batch is sent.
#[derive(Clone, Copy, Debug, PartialEq, Eq, Structural)]
pub enum BatchStep {
    /// as one datagram of this length
    Together(usize),
    /// frame by frame: together they are too long for a datagram
    Singly,
    /// not at all
    Drop(ProtocolError),
}

/// How a batch is sent, given what came of writing it as one datagram.
pub fn batch_step(encoded: Result<usize, ProtocolError>) -> (s: BatchStep)
    ensures
        s == (match encoded {
            Ok(len) => BatchStep::Together(len),
            Err(ProtocolError::BufferTooSmall { .. }) => BatchStep::Singly,
            Err(e) => BatchStep::Drop(e),
        }),
{
    match encoded {
        Ok(len) => BatchStep::Together(len),
        Err(ProtocolError::BufferTooSmall { .. }) => BatchStep::Singly,
        Err(e) => BatchStep::Drop(e),
    }
}

/// An encoded frame, as a value.
pub open spec fn encoded_view(f: EncodedFrame) -> FrameView {
    FrameView { seq: f.0, ts_ms: f.1, payload: f.2@ }
}

/// Encoded frames, as values.
pub open spec fn encoded_views(frames: Seq<EncodedFrame>) -> Seq<FrameView> {
    frames.map_values(|f: EncodedFrame| encoded_view(f))
}

/// A datagram to send, and how many audio frames it holds.
#[derive(Debug)]
pub struct Packet {
    pub bytes: Vec<u8>,
    pub frames: u64,
}

/// A datagram to send, as a value.
pub struct PacketView {
    pub bytes: Seq<u8>,
    pub frames: u64,
}

impl View for Packet {
    type V = PacketView;

    open spec fn view(&self) -> PacketView {
        PacketView { bytes: self.bytes@, frames: self.frames }
    }
}

/// Datagrams to send, as values.
pub open spec fn packet_views(packets: Seq<Packet>) -> Seq<PacketView> {
    packets.map_values(|p: Packet| p@)
}

/// The wire bytes of a frame that is sent alone.
pub open spec fn single_bytes(f: FrameView) -> Seq<u8> {
    seq![type_byte(EventType::Audio)] + frame_bytes(f)
}

/// A frame can be sent alone.
pub open spec fn fits_alone(f: FrameView) -> bool {
    frame_error(f) is None && single_bytes(f).len() <= MAX_DATAGRAM_SIZE
}

/// A datagram for each frame that can be sent alone, in order.
pub open spec fn single_packets(frames: Seq<FrameView>) -> Seq<PacketView>
    decreases frames.len(),
{
    if frames.len() == 0 {
        seq![]
    } else if fits_alone(frames.last()) {
        single_packets(frames.drop_last()).push(
            PacketView { bytes: single_bytes(frames.last()), frames: 1 },
        )
    } else {
        single_packets(frames.drop_last())
    }
}

/// The datagrams of a batch: one with all frames, or one for each where that
/// is too long. A batch with a frame that no datagram can carry is dropped.
pub open spec fn batch_datagrams(frames: Seq<FrameView>) -> Seq<PacketView> {
    match batch_error(frames, MAX_DATAGRAM_SIZE) {
        None => seq![PacketView { bytes: batch_bytes(frames), frames: frames.len() as u64 }],
        Some(ProtocolError::BufferTooSmall { .. }) => single_packets(frames),
        Some(_) => seq![],
    }
}

/// A datagram that holds the frames of one batch, if it can be written.
fn batch_packet(batch: &Vec<EncodedFrame>) -> (r: Result<Vec<u8>, ProtocolError>)
    ensures
        match r {
            Ok(bytes) => batch_error(encoded_views(batch@), MAX_DATAGRAM_SIZE) is None && bytes@
                == batch_bytes(encoded_views(batch@)),
            Err(e) => batch_error(encoded_views(batch@), MAX_DATAGRAM_SIZE) == Some(e),
        },
{
    let mut refs: Vec<AudioFrameRef<'_>> = Vec::new();
    let mut i: usize = 0;
    while i < batch.len()
        invariant
            i <= batch@.len(),
            frame_views(refs@) =~= encoded_views(batch@).take(i as int),
        decreases batch@.len() - i,
    {
        let ghost before = frame_views(refs@);
        let f = AudioFrameRef {
            seq: batch[i].0,
            ts_ms: batch[i].1,
            payload: batch[i].2.as_slice(),
        };
        refs.push(f);
        assert(frame_views(refs@) =~= before.push(f@));
        i = i + 1;
    }
    assert(frame_views(refs@) =~= encoded_views(batch@));
    let mut out: [u8; MAX_DATAGRAM_SIZE] = [0u8; MAX_DATAGRAM_SIZE];
    let dg = DatagramRef::AudioBatch(refs.as_slice());
    match encode_into(dg, &mut out) {
        Ok(len) => {
            let bytes = vstd::slice::slice_to_vec(vstd::slice::slice_subrange(out.as_slice(), 0, len));
            assert(bytes@ =~= datagram_bytes(dg));
            Ok(bytes)
        },
        Err(e) => Err(e),
    }
}

/// A datagram that holds one frame, if it can be written.
fn single_packet(f: &EncodedFrame) -> (r: Option<Packet>)
    ensures
        match r {
            Some(p) => fits_alone(encoded_view(*f)) && p@ == (PacketView {
                bytes: single_bytes(encoded_view(*f)),
                frames: 1,
            }),
            None => !fits_alone(encoded_view(*f)),
        },
{
    let mut out: [u8; MAX_DATAGRAM_SIZE] = [0u8; MAX_DATAGRAM_SIZE];
    let dg = DatagramRef::Audio { seq: f.0, ts_ms: f.1, payload: f.2.as_slice() };
    assert(datagram_bytes(dg) =~= single_bytes(encoded_view(*f)));
    match encode_into(dg, &mut out) {
        Ok(len) => {
            let bytes = vstd::slice::slice_to_vec(vstd::slice::slice_subrange(out.as_slice(), 0, len));
            assert(bytes@ =~= datagram_bytes(dg));
            Some(Packet { bytes, frames: 1 })
        },
        Err(_) => None,
    }
}

/// The datagrams of a batch.
pub fn batch_packets(batch: &Vec<EncodedFrame>) -> (packets: Vec<Packet>)
    ensures
        packet_views(packets@) == batch_datagrams(encoded_views(batch@)),
{
    let ghost all = encoded_views(batch@);
    let mut packets: Vec<Packet> = Vec::new();
    let (written, bytes) = match batch_packet(batch) {
        Ok(bytes) => (Ok(bytes.len()), bytes),
        Err(e) => (Err(e), Vec::new()),
    };
    match batch_step(written) {
        BatchStep::Together(_) => {
            packets.push(Packet { bytes, frames: batch.len() as u64 });
        },
        BatchStep::Singly => {
            let mut i: usize = 0;
            assert(all.take(0) =~= seq![]);
            while i < batch.len()
                invariant
                    i <= batch@.len(),
                    all == encoded_views(batch@),
                    packet_views(packets@) =~= single_packets(all.take(i as int)),
                decreases batch@.len() - i,
            {
                let ghost before = packet_views(packets@);
                assert(all.take(i + 1).drop_last() =~= all.take(i as int));
                if let Some(p) = single_packet(&batch[i]) {
                    let ghost pv = p@;
                    packets.push(p);
                    assert(packet_views(packets@) =~= before.push(pv));
                }
                i = i + 1;
            }
            assert(all.take(i as int) =~= all);
        },
        BatchStep::Drop(_) => {},
    }
    assert(packet_views(packets@) =~= batch_datagrams(all));
    packets
}

/// A batch that fits goes out as exactly one datagram, from which the
/// receiver reads the same frames in the same order.
pub proof fn lemma_batch_is_one_datagram(frames: Seq<FrameView>)
    requires
        0 < frames.len() <= MAX_BATCH,
        forall|i: int| 0 <= i < frames.len() ==> frame_error(#[trigger] frames[i]) is None,
        batch_bytes(frames).len() <= MAX_DATAGRAM_SIZE,
    ensures
        batch_datagrams(frames) == seq![
            PacketView { bytes: batch_bytes(frames), frames: frames.len() as u64 },
        ],
        parse_datagram(batch_bytes(frames)) == Ok::<DatagramView, ProtocolError>(
            DatagramView::AudioBatch(received_frames(frames, BATCH_HEADER_SIZE as int)),
        ),
        received_frames(frames, BATCH_HEADER_SIZE as int).len() == frames.len(),
        forall|i: int|
            0 <= i < frames.len() ==> {
                let got = #[trigger] received_frames(frames, BATCH_HEADER_SIZE as int)[i];
                holds_payload(batch_bytes(frames), got, frames[i])
            },
{
    crate::datagram::batch::lemma_no_frame_error(frames);
    lemma_batch_roundtrip(frames, MAX_DATAGRAM_SIZE, batch_bytes(frames));
}

/// Where a batch is too long, each frame goes out alone, in order.
pub proof fn lemma_long_batch_goes_singly(frames: Seq<FrameView>)
    requires
        0 < frames.len() <= MAX_BATCH,
        forall|i: int| 0 <= i < frames.len() ==> fits_alone(#[trigger] frames[i]),
        batch_bytes(frames).len() > MAX_DATAGRAM_SIZE,
    ensures
        batch_datagrams(frames).len() == frames.len(),
        forall|i: int|
            0 <= i < frames.len() ==> #[trigger] batch_datagrams(frames)[i] == (PacketView {
                bytes: single_bytes(frames[i]),
                frames: 1,
            }),
{
    crate::datagram::batch::lemma_no_frame_error(frames);
    lemma_singles(frames);
}

/// Frames that each fit get a datagram each.
proof fn lemma_singles(frames: Seq<FrameView>)
    requires
        forall|i: int| 0 <= i < frames.len() ==> fits_alone(#[trigger] frames[i]),
    ensures
        single_packets(frames).len() == frames.len(),
        forall|i: int|
            0 <= i < frames.len() ==> #[trigger] single_packets(frames)[i] == (PacketView {
                bytes: single_bytes(frames[i]),
                frames: 1,
            }),
    decreases frames.len(),
{
    if frames.len() > 0 {
        let init = frames.drop_last();
        assert forall|i: int| 0 <= i < init.len() implies fits_alone(#[trigger] init[i]) by {
            assert(init[i] == frames[i]);
        }
        lemma_singles(init);
        assert(fits_alone(frames[frames.len() - 1]));
        assert forall|i: int| 0 <= i < frames.len() implies #[trigger] single_packets(frames)[i]
            == (PacketView { bytes: single_bytes(frames[i]), frames: 1 }) by {
            if i < init.len() {
                assert(single_packets(init)[i] == single_packets(frames)[i]);
                assert(init[i] == frames[i]);
            }
        }
    }
}

/// Counts frames that were sent. Tells whether they were the first.
pub fn count_sent(sent: &mut u64, frames: u64, ok: bool) -> (first: bool)
    requires
        *old(sent) + frames <= u64::MAX,
    ensures
        *final(sent) == if ok {
            (*old(sent) + frames) as u64
        } else {
            *old(sent)
        },
        first == (ok && *old(sent) == 0),
{
    if ok {
        let first: bool = *sent == 0;
        *sent = *sent + frames;
        first
    } else {
        false
    }
}

} // verus!
