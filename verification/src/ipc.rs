//! What the service and its frontends tell each other.

pub mod laws;

use crate::net::{IpAddr, IpSet, SocketAddr};
use crate::text::{clone_opt, concat2, opt_view, same, TextMap};
use vstd::prelude::*;

verus! {

/// The port a server listens on unless configured otherwise.
pub const DEFAULT_PORT: u16 = 4242;

/// Which side of the software KVM this machine operates as. A server
/// captures local input and sends it to its clients; a client accepts remote
/// input and emulates it locally.
#[derive(Clone, Copy, Debug, PartialEq, Eq, Structural)]
pub enum OperationMode {
    Unconfigured,
    Server,
    Client,
}

impl Default for OperationMode {
    fn default() -> (r: OperationMode)
        ensures
            r == OperationMode::Unconfigured,
    {
        OperationMode::Unconfigured
    }
}

/// The name of a mode, as it is spelled in the code.
pub open spec fn mode_name(mode: OperationMode) -> Seq<char> {
    match mode {
        OperationMode::Unconfigured => "Unconfigured"@,
        OperationMode::Server => "Server"@,
        OperationMode::Client => "Client"@,
    }
}

impl OperationMode {
    /// The name of the mode.
    pub fn name(self) -> (s: &'static str)
        ensures
            s@ == mode_name(self),
    {
        match self {
            OperationMode::Unconfigured => "Unconfigured",
            OperationMode::Server => "Server",
            OperationMode::Client => "Client",
        }
    }
}

/// A screen edge.
#[derive(Clone, Copy, Debug, PartialEq, Eq, Hash, Structural)]
pub enum Position {
    Left,
    Right,
    Top,
    Bottom,
}

impl Default for Position {
    fn default() -> (r: Position)
        ensures
            r == Position::Left,
    {
        Position::Left
    }
}

/// The edge across the screen.
pub open spec fn opposite(pos: Position) -> Position {
    match pos {
        Position::Left => Position::Right,
        Position::Right => Position::Left,
        Position::Top => Position::Bottom,
        Position::Bottom => Position::Top,
    }
}

/// The name of an edge.
pub open spec fn position_text(pos: Position) -> Seq<char> {
    match pos {
        Position::Left => "left"@,
        Position::Right => "right"@,
        Position::Top => "top"@,
        Position::Bottom => "bottom"@,
    }
}

/// The edge across from the edge across is the edge itself, and no edge is
/// across from itself.
pub proof fn lemma_opposite_involution(pos: Position)
    ensures
        opposite(opposite(pos)) == pos,
        opposite(pos) != pos,
{
}

/// Edges with the same name are the same, so reading a name back gives the
/// edge that was written.
pub proof fn lemma_position_text_injective(a: Position, b: Position)
    ensures
        position_text(a) == position_text(b) ==> a == b,
{
    reveal_strlit("left");
    reveal_strlit("right");
    reveal_strlit("top");
    reveal_strlit("bottom");
    let (x, y) = (position_text(a), position_text(b));
    if x == y {
        assert(x.len() == y.len());
        assert(x[0] == y[0]);
    }
}

/// A text that names no edge.
#[derive(Debug)]
pub struct PositionParseError {
    pos: String,
}

impl PositionParseError {
    /// The text that names no edge.
    pub closed spec fn text(self) -> Seq<char> {
        self.pos@
    }

    /// The message for the user.
    pub fn to_string(&self) -> (s: String)
        ensures
            s@ == "not a valid position: "@ + self.text(),
    {
        concat2("not a valid position: ", self.pos.as_str())
    }
}

impl Position {
    /// The edge across the screen.
    pub fn opposite(&self) -> (r: Position)
        ensures
            r == opposite(*self),
    {
        match self {
            Position::Left => Position::Right,
            Position::Right => Position::Left,
            Position::Top => Position::Bottom,
            Position::Bottom => Position::Top,
        }
    }

    /// The edge with the given name.
    pub fn from_str(s: &str) -> (r: Result<Position, PositionParseError>)
        ensures
            match r {
                Ok(pos) => position_text(pos) == s@,
                Err(e) => e.text() == s@ && forall|pos: Position| position_text(pos) != s@,
            },
    {
        match Position::try_from(s) {
            Ok(pos) => Ok(pos),
            Err(_) => Err(PositionParseError { pos: s.to_owned() }),
        }
    }

    /// The edge with the given name.
    pub fn try_from(s: &str) -> (r: Result<Position, ()>)
        ensures
            match r {
                Ok(pos) => position_text(pos) == s@,
                Err(_) => forall|pos: Position| position_text(pos) != s@,
            },
    {
        if same(s, "left") {
            Ok(Position::Left)
        } else if same(s, "right") {
            Ok(Position::Right)
        } else if same(s, "top") {
            Ok(Position::Top)
        } else if same(s, "bottom") {
            Ok(Position::Bottom)
        } else {
            Err(())
        }
    }

    /// The name of the edge.
    pub fn as_str(&self) -> (s: &'static str)
        ensures
            s@ == position_text(*self),
    {
        match self {
            Position::Left => "left",
            Position::Right => "right",
            Position::Top => "top",
            Position::Bottom => "bottom",
        }
    }

    /// The name of the edge.
    pub fn to_string(&self) -> (s: String)
        ensures
            s@ == position_text(*self),
    {
        self.as_str().to_owned()
    }
}

/// What the user set up for a client.
#[derive(Debug)]
pub struct ClientConfig {
    /// display label of the client
    pub hostname: Option<String>,
    /// addresses given by the user
    pub fix_ips: Vec<IpAddr>,
    /// port of the peer
    pub port: u16,
    /// screen edge at which the client lies
    pub pos: Position,
    /// command to run when the client is entered
    pub cmd: Option<String>,
    /// fingerprint of the paired device's certificate: the stable identity
    /// of a client. `None` while the client is not paired.
    pub fingerprint: Option<String>,
}

/// What the user set up for a client, as a value.
pub struct ConfigView {
    pub hostname: Option<Seq<char>>,
    pub fix_ips: Seq<IpAddr>,
    pub port: u16,
    pub pos: Position,
    pub cmd: Option<Seq<char>>,
    pub fingerprint: Option<Seq<char>>,
}

impl View for ClientConfig {
    type V = ConfigView;

    open spec fn view(&self) -> ConfigView {
        ConfigView {
            hostname: opt_view(self.hostname),
            fix_ips: self.fix_ips@,
            port: self.port,
            pos: self.pos,
            cmd: opt_view(self.cmd),
            fingerprint: opt_view(self.fingerprint),
        }
    }
}

/// The configuration of a client that the user has not touched yet.
pub open spec fn default_config() -> ConfigView {
    ConfigView {
        hostname: None,
        fix_ips: seq![],
        port: DEFAULT_PORT,
        pos: Position::Left,
        cmd: None,
        fingerprint: None,
    }
}

/// A copy of a list of addresses.
pub fn clone_ips(ips: &Vec<IpAddr>) -> (r: Vec<IpAddr>)
    ensures
        r@ == ips@,
{
    let r = ips.clone();
    assert(r@ =~= ips@);
    r
}

impl Default for ClientConfig {
    fn default() -> (r: ClientConfig)
        ensures
            r@ == default_config(),
    {
        let r = ClientConfig {
            hostname: None,
            fix_ips: Vec::new(),
            port: DEFAULT_PORT,
            pos: Position::Left,
            cmd: None,
            fingerprint: None,
        };
        assert(r.fix_ips@ =~= seq![]);
        r
    }
}

impl Clone for ClientConfig {
    fn clone(&self) -> (r: ClientConfig)
        ensures
            r@ == self@,
    {
        ClientConfig {
            hostname: clone_opt(&self.hostname),
            fix_ips: clone_ips(&self.fix_ips),
            port: self.port,
            pos: self.pos,
            cmd: clone_opt(&self.cmd),
            fingerprint: clone_opt(&self.fingerprint),
        }
    }
}

/// Number by which a client is known.
pub type ClientHandle = u64;

/// What is currently known of a client.
#[derive(Debug)]
pub struct ClientState {
    /// events should be sent to and received from the client
    pub active: bool,
    /// where its accepted connection comes from
    pub active_addr: Option<SocketAddr>,
    /// whether the client is available for emulation
    pub alive: bool,
    /// addresses from name resolution
    pub dns_ips: Vec<IpAddr>,
    /// all addresses of the client
    pub ips: IpSet,
    /// the client has pressed keys
    pub has_pressed_keys: bool,
    /// name resolution is in progress
    pub resolving: bool,
    /// short commit of the peer's build, once it said hello
    pub peer_commit: Option<[u8; 8]>,
}

/// What is currently known of a client, as a value.
pub struct StateView {
    pub active: bool,
    pub active_addr: Option<SocketAddr>,
    pub alive: bool,
    pub dns_ips: Seq<IpAddr>,
    pub ips: Set<IpAddr>,
    pub has_pressed_keys: bool,
    pub resolving: bool,
    pub peer_commit: Option<[u8; 8]>,
}

impl View for ClientState {
    type V = StateView;

    open spec fn view(&self) -> StateView {
        StateView {
            active: self.active,
            active_addr: self.active_addr,
            alive: self.alive,
            dns_ips: self.dns_ips@,
            ips: self.ips@,
            has_pressed_keys: self.has_pressed_keys,
            resolving: self.resolving,
            peer_commit: self.peer_commit,
        }
    }
}

/// The state of a client of which nothing is known yet.
pub open spec fn default_state() -> StateView {
    StateView {
        active: false,
        active_addr: None,
        alive: false,
        dns_ips: seq![],
        ips: Set::empty(),
        has_pressed_keys: false,
        resolving: false,
        peer_commit: None,
    }
}

impl Default for ClientState {
    fn default() -> (r: ClientState)
        ensures
            r@ == default_state(),
    {
        let r = ClientState {
            active: false,
            active_addr: None,
            alive: false,
            dns_ips: Vec::new(),
            ips: IpSet::new(),
            has_pressed_keys: false,
            resolving: false,
            peer_commit: None,
        };
        assert(r.dns_ips@ =~= seq![]);
        r
    }
}

impl Clone for ClientState {
    fn clone(&self) -> (r: ClientState)
        ensures
            r@ == self@,
    {
        ClientState {
            active: self.active,
            active_addr: self.active_addr,
            alive: self.alive,
            dns_ips: clone_ips(&self.dns_ips),
            ips: self.ips.clone(),
            has_pressed_keys: self.has_pressed_keys,
            resolving: self.resolving,
            peer_commit: self.peer_commit,
        }
    }
}

/// Whether capture or emulation runs.
#[derive(Clone, Copy, Debug, PartialEq, Eq, Structural)]
pub enum Status {
    Disabled,
    Enabled,
}

impl Default for Status {
    fn default() -> (r: Status)
        ensures
            r == Status::Disabled,
    {
        Status::Disabled
    }
}

impl From<Status> for bool {
    fn from(status: Status) -> bool {
        match status {
            Status::Enabled => true,
            Status::Disabled => false,
        }
    }
}

impl vstd::std_specs::convert::FromSpecImpl<Status> for bool {
    open spec fn obeys_from_spec() -> bool {
        true
    }

    open spec fn from_spec(status: Status) -> bool {
        status is Enabled
    }
}

/// An audio device, for the device pickers.
#[derive(Debug)]
pub struct AudioDeviceInfo {
    pub id: String,
    pub name: String,
    /// this is a loopback source: the system's own output
    pub is_monitor: bool,
    pub is_default: bool,
}

/// An audio device, as a value.
pub struct DeviceView {
    pub id: Seq<char>,
    pub name: Seq<char>,
    pub is_monitor: bool,
    pub is_default: bool,
}

impl View for AudioDeviceInfo {
    type V = DeviceView;

    open spec fn view(&self) -> DeviceView {
        DeviceView {
            id: self.id@,
            name: self.name@,
            is_monitor: self.is_monitor,
            is_default: self.is_default,
        }
    }
}

impl Clone for AudioDeviceInfo {
    fn clone(&self) -> (r: AudioDeviceInfo)
        ensures
            r@ == self@,
    {
        AudioDeviceInfo {
            id: self.id.clone(),
            name: self.name.clone(),
            is_monitor: self.is_monitor,
            is_default: self.is_default,
        }
    }
}

/// The devices of a list, as values.
pub open spec fn device_views(devices: Seq<AudioDeviceInfo>) -> Seq<DeviceView> {
    devices.map_values(|d: AudioDeviceInfo| d@)
}

/// A client with its handle, as a value.
pub type ClientEntryView = (ClientHandle, ConfigView, StateView);

/// The clients of a list, as values.
pub open spec fn entry_views(
    clients: Seq<(ClientHandle, ClientConfig, ClientState)>,
) -> Seq<ClientEntryView> {
    clients.map_values(|c: (ClientHandle, ClientConfig, ClientState)| (c.0, c.1@, c.2@))
}

/// Fingerprints with their descriptions, as values.
pub open spec fn key_views(keys: Map<Seq<char>, String>) -> Map<Seq<char>, Seq<char>> {
    keys.map_values(|s: String| s@)
}

/// What the service tells its frontends.
#[allow(inconsistent_fields)]
#[derive(Debug)]
pub enum FrontendEvent {
    /// current role
    OperationMode(OperationMode),
    /// a client was created
    Created(ClientHandle, ClientConfig, ClientState),
    /// result of a connection test
    ConnectionTested { request_id: u64, error: Option<String> },
    /// no such client
    NoSuchClient(ClientHandle),
    /// a client's configuration or state changed
    State(ClientHandle, ClientConfig, ClientState),
    /// a client was deleted
    Deleted(ClientHandle),
    /// the port in use, with the reason where a change failed
    PortChanged(u16, Option<String>),
    /// all clients
    Enumerate(Vec<(ClientHandle, ClientConfig, ClientState)>),
    /// an error occurred
    Error(String),
    /// capture status
    CaptureStatus(Status),
    /// emulation status
    EmulationStatus(Status),
    /// the authorized fingerprints, with their descriptions
    AuthorizedUpdated(TextMap<String>),
    /// fingerprint of this device
    PublicKeyFingerprint(String),
    /// a device connected
    DeviceConnected { addr: SocketAddr, fingerprint: String },
    /// a device entered this screen
    DeviceEntered { fingerprint: String, addr: SocketAddr, pos: Position },
    /// a device disconnected
    IncomingDisconnected(SocketAddr),
    /// a connection attempt failed: the fingerprint needs approval
    ConnectionAttempt { fingerprint: String },
    /// the server that this device dials in client mode
    ServerEndpoint { hostname: Option<String>, ips: Vec<IpAddr>, port: u16 },
    /// audio settings and capability
    AudioStatus {
        send: bool,
        receive: bool,
        bitrate: u32,
        buffer_ms: u32,
        /// whether the system's own output can be captured
        loopback_supported: bool,
    },
    /// the available audio devices
    AudioDevices { capture: Vec<AudioDeviceInfo>, playback: Vec<AudioDeviceInfo> },
    /// status of one peer's audio stream
    AudioStream {
        addr: SocketAddr,
        active: bool,
        latency_ms: u32,
        packets_lost: u64,
        /// bit pattern of the single-precision level between zero and one
        level: u32,
    },
    /// an audio error, of one peer or of all
    AudioError { addr: Option<SocketAddr>, message: String },
}

/// What the service tells its frontends, as a value.
#[allow(inconsistent_fields)]
pub enum FrontendEventView {
    OperationMode(OperationMode),
    Created(ClientHandle, ConfigView, StateView),
    ConnectionTested { request_id: u64, error: Option<Seq<char>> },
    NoSuchClient(ClientHandle),
    State(ClientHandle, ConfigView, StateView),
    Deleted(ClientHandle),
    PortChanged(u16, Option<Seq<char>>),
    Enumerate(Seq<ClientEntryView>),
    Error(Seq<char>),
    CaptureStatus(Status),
    EmulationStatus(Status),
    AuthorizedUpdated(Map<Seq<char>, Seq<char>>),
    PublicKeyFingerprint(Seq<char>),
    DeviceConnected { addr: SocketAddr, fingerprint: Seq<char> },
    DeviceEntered { fingerprint: Seq<char>, addr: SocketAddr, pos: Position },
    IncomingDisconnected(SocketAddr),
    ConnectionAttempt { fingerprint: Seq<char> },
    ServerEndpoint { hostname: Option<Seq<char>>, ips: Seq<IpAddr>, port: u16 },
    AudioStatus { send: bool, receive: bool, bitrate: u32, buffer_ms: u32, loopback_supported: bool },
    AudioDevices { capture: Seq<DeviceView>, playback: Seq<DeviceView> },
    AudioStream { addr: SocketAddr, active: bool, latency_ms: u32, packets_lost: u64, level: u32 },
    AudioError { addr: Option<SocketAddr>, message: Seq<char> },
}

impl View for FrontendEvent {
    type V = FrontendEventView;

    open spec fn view(&self) -> FrontendEventView {
        match self {
            FrontendEvent::OperationMode(m) => FrontendEventView::OperationMode(*m),
            FrontendEvent::Created(h, c, s) => FrontendEventView::Created(*h, c@, s@),
            FrontendEvent::ConnectionTested { request_id, error } =>
                FrontendEventView::ConnectionTested {
                request_id: *request_id,
                error: opt_view(*error),
            },
            FrontendEvent::NoSuchClient(h) => FrontendEventView::NoSuchClient(*h),
            FrontendEvent::State(h, c, s) => FrontendEventView::State(*h, c@, s@),
            FrontendEvent::Deleted(h) => FrontendEventView::Deleted(*h),
            FrontendEvent::PortChanged(p, m) => FrontendEventView::PortChanged(*p, opt_view(*m)),
            FrontendEvent::Enumerate(l) => FrontendEventView::Enumerate(entry_views(l@)),
            FrontendEvent::Error(e) => FrontendEventView::Error(e@),
            FrontendEvent::CaptureStatus(s) => FrontendEventView::CaptureStatus(*s),
            FrontendEvent::EmulationStatus(s) => FrontendEventView::EmulationStatus(*s),
            FrontendEvent::AuthorizedUpdated(k) => FrontendEventView::AuthorizedUpdated(
                key_views(k@),
            ),
            FrontendEvent::PublicKeyFingerprint(f) => FrontendEventView::PublicKeyFingerprint(f@),
            FrontendEvent::DeviceConnected { addr, fingerprint } =>
                FrontendEventView::DeviceConnected { addr: *addr, fingerprint: fingerprint@ },
            FrontendEvent::DeviceEntered { fingerprint, addr, pos } =>
                FrontendEventView::DeviceEntered {
                fingerprint: fingerprint@,
                addr: *addr,
                pos: *pos,
            },
            FrontendEvent::IncomingDisconnected(a) => FrontendEventView::IncomingDisconnected(*a),
            FrontendEvent::ConnectionAttempt { fingerprint } =>
                FrontendEventView::ConnectionAttempt { fingerprint: fingerprint@ },
            FrontendEvent::ServerEndpoint { hostname, ips, port } =>
                FrontendEventView::ServerEndpoint {
                hostname: opt_view(*hostname),
                ips: ips@,
                port: *port,
            },
            FrontendEvent::AudioStatus { send, receive, bitrate, buffer_ms, loopback_supported } =>
                FrontendEventView::AudioStatus {
                send: *send,
                receive: *receive,
                bitrate: *bitrate,
                buffer_ms: *buffer_ms,
                loopback_supported: *loopback_supported,
            },
            FrontendEvent::AudioDevices { capture, playback } => FrontendEventView::AudioDevices {
                capture: device_views(capture@),
                playback: device_views(playback@),
            },
            FrontendEvent::AudioStream { addr, active, latency_ms, packets_lost, level } =>
                FrontendEventView::AudioStream {
                addr: *addr,
                active: *active,
                latency_ms: *latency_ms,
                packets_lost: *packets_lost,
                level: *level,
            },
            FrontendEvent::AudioError { addr, message } => FrontendEventView::AudioError {
                addr: *addr,
                message: message@,
            },
        }
    }
}

/// What a frontend asks of the service.
#[allow(inconsistent_fields)]
#[derive(Debug)]
pub enum FrontendRequest {
    /// change the role
    SetOperationMode(OperationMode),
    /// activate or deactivate a client
    Activate(ClientHandle, bool),
    /// add a new client
    Create,
    /// add a client that is fully configured
    CreateConfigured { config: ClientConfig, active: bool },
    /// verify that a server answers, without saving anything
    TestConnection { request_id: u64, hostname: String, port: u16 },
    /// change the listen port
    ChangePort(u16),
    /// remove a client
    Delete(ClientHandle),
    /// ask for all clients
    Enumerate(),
    /// resolve a client's host name
    ResolveDns(ClientHandle),
    /// update a client's host name
    UpdateHostname(ClientHandle, Option<String>),
    /// update a client's port
    UpdatePort(ClientHandle, u16),
    /// update a client's position
    UpdatePosition(ClientHandle, Position),
    /// give a connected device a screen edge, which pairs it
    AssignPosition { fingerprint: String, pos: Position },
    /// update a client's fixed addresses
    UpdateFixIps(ClientHandle, Vec<IpAddr>),
    /// set the server that this device dials in client mode
    SetServer { hostname: Option<String>, ips: Vec<IpAddr>, port: u16 },
    /// enable input capture again
    EnableCapture,
    /// enable input emulation again
    EnableEmulation,
    /// start or stop what the active role does
    SetServiceRunning(bool),
    /// synchronize all state
    Sync,
    /// authorize a fingerprint (description, fingerprint)
    AuthorizeKey(String, String),
    /// withdraw a fingerprint's authorization
    RemoveAuthorizedKey(String),
    /// change a client's hook command
    UpdateEnterHook(u64, Option<String>),
    /// save the configuration
    SaveConfiguration,
    /// send this machine's audio to peers, or stop
    SetAudioSend(bool),
    /// play audio received from peers, or stop
    SetAudioReceive(bool),
    /// update codec and buffer parameters
    UpdateAudioSettings { bitrate: u32, buffer_ms: u32 },
    /// select the capture device; `None` is the system default
    SetAudioCaptureDevice(Option<String>),
    /// select the playback device; `None` is the system default
    SetAudioPlaybackDevice(Option<String>),
    /// ask for the available audio devices
    EnumerateAudioDevices,
}

/// The items whose flag is set, in order.
pub open spec fn flagged<T>(items: Seq<T>, keep: Seq<bool>) -> Seq<T>
    decreases items.len(),
{
    if items.len() == 0 || keep.len() == 0 {
        seq![]
    } else if keep[0] {
        seq![items[0]] + flagged(items.skip(1), keep.skip(1))
    } else {
        flagged(items.skip(1), keep.skip(1))
    }
}

/// Keeps the frontends that could be written to. `keep` tells of each whether
/// it could.
pub fn retain_live<T>(items: Vec<T>, keep: &Vec<bool>) -> (r: Vec<T>)
    requires
        items@.len() == keep@.len(),
    ensures
        r@ == flagged(items@, keep@),
{
    let mut rest = items;
    let mut r: Vec<T> = Vec::new();
    let mut i: usize = 0;
    let ghost all = flagged(items@, keep@);
    assert(rest@ =~= items@.skip(0));
    assert(keep@.skip(0) =~= keep@);
    assert(r@ + flagged(rest@, keep@.skip(0)) =~= all);
    while i < keep.len()
        invariant
            i <= keep@.len(),
            rest@.len() == keep@.len() - i,
            r@ + flagged(rest@, keep@.skip(i as int)) == all,
        decreases keep@.len() - i,
    {
        let ghost rest0 = rest@;
        let ghost r0 = r@;
        let item = rest.remove(0);
        assert(rest@ =~= rest0.skip(1));
        assert(keep@.skip(i as int).skip(1) =~= keep@.skip(i + 1));
        if keep[i] {
            r.push(item);
            assert(r@ + flagged(rest@, keep@.skip(i + 1)) =~= r0 + flagged(
                rest0,
                keep@.skip(i as int),
            ));
        }
        i = i + 1;
    }
    assert(r@ =~= all);
    r
}

/// What is done about a socket that may have been left behind.
#[derive(Clone, Copy, Debug, PartialEq, Eq, Structural)]
pub enum OldSocket {
    /// there is none
    Bind,
    /// nobody answers on it: it is removed
    RemoveAndBind,
    /// the service already runs
    AlreadyRunning,
}

/// What is done about a socket that may have been left behind. `answers`
/// tells whether a connection to it succeeds.
pub fn old_socket(found: bool, answers: bool) -> (s: OldSocket)
    ensures
        s == if !found {
            OldSocket::Bind
        } else if answers {
            OldSocket::AlreadyRunning
        } else {
            OldSocket::RemoveAndBind
        },
{
    if !found {
        OldSocket::Bind
    } else if answers {
        OldSocket::AlreadyRunning
    } else {
        OldSocket::RemoveAndBind
    }
}

/// What a frontend asks of the service, as a value.
#[allow(inconsistent_fields)]
pub enum FrontendRequestView {
    SetOperationMode(OperationMode),
    Activate(ClientHandle, bool),
    Create,
    CreateConfigured { config: ConfigView, active: bool },
    TestConnection { request_id: u64, hostname: Seq<char>, port: u16 },
    ChangePort(u16),
    Delete(ClientHandle),
    Enumerate,
    ResolveDns(ClientHandle),
    UpdateHostname(ClientHandle, Option<Seq<char>>),
    UpdatePort(ClientHandle, u16),
    UpdatePosition(ClientHandle, Position),
    AssignPosition { fingerprint: Seq<char>, pos: Position },
    UpdateFixIps(ClientHandle, Seq<IpAddr>),
    SetServer { hostname: Option<Seq<char>>, ips: Seq<IpAddr>, port: u16 },
    EnableCapture,
    EnableEmulation,
    SetServiceRunning(bool),
    Sync,
    AuthorizeKey(Seq<char>, Seq<char>),
    RemoveAuthorizedKey(Seq<char>),
    UpdateEnterHook(u64, Option<Seq<char>>),
    SaveConfiguration,
    SetAudioSend(bool),
    SetAudioReceive(bool),
    UpdateAudioSettings { bitrate: u32, buffer_ms: u32 },
    SetAudioCaptureDevice(Option<Seq<char>>),
    SetAudioPlaybackDevice(Option<Seq<char>>),
    EnumerateAudioDevices,
}

impl View for FrontendRequest {
    type V = FrontendRequestView;

    open spec fn view(&self) -> FrontendRequestView {
        match self {
            FrontendRequest::SetOperationMode(m) => FrontendRequestView::SetOperationMode(*m),
            FrontendRequest::Activate(h, a) => FrontendRequestView::Activate(*h, *a),
            FrontendRequest::Create => FrontendRequestView::Create,
            FrontendRequest::CreateConfigured { config, active } =>
                FrontendRequestView::CreateConfigured { config: config@, active: *active },
            FrontendRequest::TestConnection { request_id, hostname, port } =>
                FrontendRequestView::TestConnection {
                request_id: *request_id,
                hostname: hostname@,
                port: *port,
            },
            FrontendRequest::ChangePort(p) => FrontendRequestView::ChangePort(*p),
            FrontendRequest::Delete(h) => FrontendRequestView::Delete(*h),
            FrontendRequest::Enumerate() => FrontendRequestView::Enumerate,
            FrontendRequest::ResolveDns(h) => FrontendRequestView::ResolveDns(*h),
            FrontendRequest::UpdateHostname(h, n) => FrontendRequestView::UpdateHostname(
                *h,
                opt_view(*n),
            ),
            FrontendRequest::UpdatePort(h, p) => FrontendRequestView::UpdatePort(*h, *p),
            FrontendRequest::UpdatePosition(h, p) => FrontendRequestView::UpdatePosition(*h, *p),
            FrontendRequest::AssignPosition { fingerprint, pos } =>
                FrontendRequestView::AssignPosition { fingerprint: fingerprint@, pos: *pos },
            FrontendRequest::UpdateFixIps(h, ips) => FrontendRequestView::UpdateFixIps(*h, ips@),
            FrontendRequest::SetServer { hostname, ips, port } => FrontendRequestView::SetServer {
                hostname: opt_view(*hostname),
                ips: ips@,
                port: *port,
            },
            FrontendRequest::EnableCapture => FrontendRequestView::EnableCapture,
            FrontendRequest::EnableEmulation => FrontendRequestView::EnableEmulation,
            FrontendRequest::SetServiceRunning(r) => FrontendRequestView::SetServiceRunning(*r),
            FrontendRequest::Sync => FrontendRequestView::Sync,
            FrontendRequest::AuthorizeKey(d, f) => FrontendRequestView::AuthorizeKey(d@, f@),
            FrontendRequest::RemoveAuthorizedKey(f) => FrontendRequestView::RemoveAuthorizedKey(f@),
            FrontendRequest::UpdateEnterHook(h, c) => FrontendRequestView::UpdateEnterHook(
                *h,
                opt_view(*c),
            ),
            FrontendRequest::SaveConfiguration => FrontendRequestView::SaveConfiguration,
            FrontendRequest::SetAudioSend(b) => FrontendRequestView::SetAudioSend(*b),
            FrontendRequest::SetAudioReceive(b) => FrontendRequestView::SetAudioReceive(*b),
            FrontendRequest::UpdateAudioSettings { bitrate, buffer_ms } =>
                FrontendRequestView::UpdateAudioSettings {
                bitrate: *bitrate,
                buffer_ms: *buffer_ms,
            },
            FrontendRequest::SetAudioCaptureDevice(d) =>
                FrontendRequestView::SetAudioCaptureDevice(opt_view(*d)),
            FrontendRequest::SetAudioPlaybackDevice(d) =>
                FrontendRequestView::SetAudioPlaybackDevice(opt_view(*d)),
            FrontendRequest::EnumerateAudioDevices => FrontendRequestView::EnumerateAudioDevices,
        }
    }
}

} // verus!
