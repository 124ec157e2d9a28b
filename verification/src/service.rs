//! The service: what every request, event and change of configuration does.
//!
//! A handler changes the state and appends to a list of [`Action`]s, which
//! the surrounding program takes out and carries out in order.

use crate::audio::{AudioSettings, AudioSettingsView};
use crate::capture::{CaptureType, ICaptureEvent};
use crate::client::{
    configured_client, slot, ClientManager, ConfigClient, ConfigClientView, ManagerView,
    QueryView,
};
use crate::connect::{ServerTarget, TargetView};
use crate::emulation::EmulationEvent;
use crate::ipc::{clone_ips, default_config, device_views, key_views};
use crate::ipc::{
    AudioDeviceInfo, ClientConfig, ClientHandle, ConfigView, FrontendEvent, FrontendEventView,
    FrontendRequest, OperationMode, Position, StateView, Status,
};
use crate::net::{dedup_ips, distinct_ips, sort_ips, sorted_ips, IpAddr, SocketAddr};
use crate::text::{clone_map, clone_opt, opt_view, same, TextMap};
use vstd::prelude::*;

pub mod effects;
pub mod laws;
pub mod pairing;
pub mod reload;
pub mod requests;
pub mod roles;

verus! {

/// The server that this device dials in client mode.
#[derive(Debug)]
pub struct ServerEndpoint {
    pub hostname: Option<String>,
    pub ips: Vec<IpAddr>,
    pub port: u16,
}

/// The server that this device dials in client mode, as a value.
pub struct EndpointView {
    pub hostname: Option<Seq<char>>,
    pub ips: Seq<IpAddr>,
    pub port: u16,
}

impl View for ServerEndpoint {
    type V = EndpointView;

    open spec fn view(&self) -> EndpointView {
        EndpointView { hostname: opt_view(self.hostname), ips: self.ips@, port: self.port }
    }
}

impl Clone for ServerEndpoint {
    fn clone(&self) -> (r: ServerEndpoint)
        ensures
            r@ == self@,
    {
        ServerEndpoint {
            hostname: clone_opt(&self.hostname),
            ips: clone_ips(&self.ips),
            port: self.port,
        }
    }
}

/// Everything that the configuration file keeps.
#[derive(Debug)]
pub struct SavedConfig {
    /// the role, where the file names one
    pub mode: Option<OperationMode>,
    pub clients: Vec<ConfigClient>,
    pub keys: TextMap<String>,
    pub audio: AudioSettings,
    pub endpoint: ServerEndpoint,
}

/// Everything that the configuration file keeps, as a value.
pub struct SavedView {
    pub mode: Option<OperationMode>,
    pub clients: Seq<ConfigClientView>,
    pub keys: Map<Seq<char>, Seq<char>>,
    pub audio: AudioSettingsView,
    pub endpoint: EndpointView,
}

impl SavedView {
    /// The role that the file gives, named or not: a file with clients is a
    /// server's, one that says where the server is a client's.
    pub open spec fn role(self) -> OperationMode {
        effective(self.mode, self.clients.len(), self.endpoint)
    }
}

/// The role of a configuration file that may not name one.
pub open spec fn effective(
    configured: Option<OperationMode>,
    clients: nat,
    endpoint: EndpointView,
) -> OperationMode {
    match configured {
        Some(m) => m,
        None => if clients > 0 {
            OperationMode::Server
        } else if endpoint.hostname is Some || endpoint.ips.len() > 0 {
            OperationMode::Client
        } else {
            OperationMode::Unconfigured
        },
    }
}

/// The clients of a configuration file, as values.
pub open spec fn config_views(clients: Seq<ConfigClient>) -> Seq<ConfigClientView> {
    clients.map_values(|c: ConfigClient| c@)
}

impl View for SavedConfig {
    type V = SavedView;

    open spec fn view(&self) -> SavedView {
        SavedView {
            mode: self.mode,
            clients: config_views(self.clients@),
            keys: key_views(self.keys@),
            audio: self.audio@,
            endpoint: self.endpoint@,
        }
    }
}

/// Work for the surrounding program.
#[derive(Debug)]
pub enum Action {
    /// tell the frontends
    Notify(FrontendEvent),
    /// write the configuration file
    SaveConfig(SavedConfig),
    /// put up a barrier
    CaptureCreate(ClientHandle, Position, CaptureType),
    /// take a barrier down
    CaptureDestroy(ClientHandle),
    /// release the capture
    CaptureRelease,
    /// start capturing again
    CaptureReenable,
    /// allow or stop capturing
    CaptureSetEnabled(bool),
    /// accept devices
    StartListening { port: u16, audio: AudioSettings },
    /// accept no more devices
    StopListening,
    /// move the listener to another port
    RequestPortChange(u16),
    /// change the keys that release the capture
    SetReleaseBind(Vec<u32>),
    /// start emulating again
    EmulationReenable,
    /// allow or stop emulating
    EmulationSetEnabled(bool),
    /// dial a server, or none
    SetServer(Option<ServerTarget>),
    /// see whether a server answers
    TestConnection { request_id: u64, hostname: String, port: u16 },
    /// tell the server that the pointer left this screen
    SendLeave(SocketAddr),
    /// resolve a host name
    Resolve(ClientHandle, String),
    /// list the audio devices
    EnumerateAudioDevices,
    /// run a command
    SpawnHook(String),
}

/// Work for the surrounding program, as a value.
pub enum ActionView {
    Notify(FrontendEventView),
    SaveConfig(SavedView),
    CaptureCreate(ClientHandle, Position, CaptureType),
    CaptureDestroy(ClientHandle),
    CaptureRelease,
    CaptureReenable,
    CaptureSetEnabled(bool),
    StartListening { port: u16, audio: AudioSettingsView },
    StopListening,
    RequestPortChange(u16),
    SetReleaseBind(Seq<u32>),
    EmulationReenable,
    EmulationSetEnabled(bool),
    SetServer(Option<TargetView>),
    TestConnection { request_id: u64, hostname: Seq<char>, port: u16 },
    SendLeave(SocketAddr),
    Resolve(ClientHandle, Seq<char>),
    EnumerateAudioDevices,
    SpawnHook(Seq<char>),
}

impl View for Action {
    type V = ActionView;

    open spec fn view(&self) -> ActionView {
        match self {
            Action::Notify(e) => ActionView::Notify(e@),
            Action::SaveConfig(c) => ActionView::SaveConfig(c@),
            Action::CaptureCreate(h, p, t) => ActionView::CaptureCreate(*h, *p, *t),
            Action::CaptureDestroy(h) => ActionView::CaptureDestroy(*h),
            Action::CaptureRelease => ActionView::CaptureRelease,
            Action::CaptureReenable => ActionView::CaptureReenable,
            Action::CaptureSetEnabled(b) => ActionView::CaptureSetEnabled(*b),
            Action::StartListening { port, audio } => ActionView::StartListening {
                port: *port,
                audio: audio@,
            },
            Action::StopListening => ActionView::StopListening,
            Action::RequestPortChange(p) => ActionView::RequestPortChange(*p),
            Action::SetReleaseBind(k) => ActionView::SetReleaseBind(k@),
            Action::EmulationReenable => ActionView::EmulationReenable,
            Action::EmulationSetEnabled(b) => ActionView::EmulationSetEnabled(*b),
            Action::SetServer(Some(t)) => ActionView::SetServer(Some(t@)),
            Action::SetServer(None) => ActionView::SetServer(None),
            Action::TestConnection { request_id, hostname, port } => ActionView::TestConnection {
                request_id: *request_id,
                hostname: hostname@,
                port: *port,
            },
            Action::SendLeave(a) => ActionView::SendLeave(*a),
            Action::Resolve(h, n) => ActionView::Resolve(*h, n@),
            Action::EnumerateAudioDevices => ActionView::EnumerateAudioDevices,
            Action::SpawnHook(c) => ActionView::SpawnHook(c@),
        }
    }
}

/// The actions of a list, as values.
pub open spec fn action_views(actions: Seq<Action>) -> Seq<ActionView> {
    actions.map_values(|a: Action| a@)
}

/// A device whose pointer entered this screen.
#[derive(Debug)]
struct Incoming {
    handle: ClientHandle,
    fingerprint: String,
    addr: SocketAddr,
    pos: Position,
}

/// A device whose pointer entered this screen, as a value.
pub struct IncomingView {
    /// the barrier that detects the way back
    pub handle: ClientHandle,
    pub fingerprint: Seq<char>,
    pub addr: SocketAddr,
    pub pos: Position,
}

impl View for Incoming {
    type V = IncomingView;

    closed spec fn view(&self) -> IncomingView {
        IncomingView {
            handle: self.handle,
            fingerprint: self.fingerprint@,
            addr: self.addr,
            pos: self.pos,
        }
    }
}

/// Barriers of entered devices have handles from here on; clients never
/// reach them.
pub const ENTER_HANDLE_BEGIN: u64 = 0x8000_0000_0000_0000;

/// The handle under which the server's own host name is resolved. No client
/// has it.
pub const SERVER_HANDLE: ClientHandle = 0xffff_ffff_ffff_ffff;

/// The state of the service.
pub struct ServiceView {
    /// whether this machine controls peers or accepts remote control
    pub mode: OperationMode,
    /// the role that the configuration file names, if it names one
    pub configured: Option<OperationMode>,
    /// current port
    pub port: u16,
    pub audio: AudioSettingsView,
    pub endpoint: EndpointView,
    /// authorized fingerprints and their descriptions
    pub keys: Map<Seq<char>, Seq<char>>,
    pub clients: ManagerView,
    /// fingerprint of this device
    pub fingerprint: Seq<char>,
    pub capture_status: Status,
    pub emulation_status: Status,
    /// devices whose pointer entered this screen
    pub incoming: Seq<IncomingView>,
    /// resolved addresses of the server
    pub server_dns_ips: Seq<IpAddr>,
    /// barriers of entered devices so far
    pub next_trigger: u64,
    /// what is to be done
    pub actions: Seq<ActionView>,
}

/// The place of the device with an address.
pub open spec fn incoming_index(incoming: Seq<IncomingView>, addr: SocketAddr) -> Option<int>
    decreases incoming.len(),
{
    if incoming.len() == 0 {
        None
    } else {
        match incoming_index(incoming.drop_last(), addr) {
            Some(i) => Some(i),
            None => if incoming.last().addr == addr {
                Some(incoming.len() - 1)
            } else {
                None
            },
        }
    }
}

/// A device is found where it first stands, and only if it is there.
pub proof fn lemma_incoming_index(incoming: Seq<IncomingView>, addr: SocketAddr)
    ensures
        match incoming_index(incoming, addr) {
            Some(i) => 0 <= i < incoming.len() && incoming[i].addr == addr && forall|j: int|
                0 <= j < i ==> (#[trigger] incoming[j]).addr != addr,
            None => forall|j: int| 0 <= j < incoming.len() ==> (#[trigger] incoming[j]).addr != addr,
        },
    decreases incoming.len(),
{
    if incoming.len() > 0 {
        let init = incoming.drop_last();
        lemma_incoming_index(init, addr);
        assert(forall|j: int| 0 <= j < init.len() ==> init[j] == incoming[j]);
    }
}

/// The place of the device with a barrier.
pub open spec fn barrier_index(incoming: Seq<IncomingView>, handle: ClientHandle) -> Option<int>
    decreases incoming.len(),
{
    if incoming.len() == 0 {
        None
    } else {
        match barrier_index(incoming.drop_last(), handle) {
            Some(i) => Some(i),
            None => if incoming.last().handle == handle {
                Some(incoming.len() - 1)
            } else {
                None
            },
        }
    }
}

/// The entry of the configuration file that keeps a client.
pub open spec fn kept_client(config: ConfigView, state: StateView) -> ConfigClientView {
    ConfigClientView {
        ips: distinct_ips(config.fix_ips),
        hostname: config.hostname,
        port: config.port,
        pos: config.pos,
        active: state.active,
        enter_hook: config.cmd,
        fingerprint: config.fingerprint,
    }
}

impl ServiceView {
    /// With one more thing to do.
    pub open spec fn emit(self, a: ActionView) -> ServiceView {
        ServiceView { actions: self.actions.push(a), ..self }
    }

    /// With one more thing to tell the frontends.
    pub open spec fn notify(self, e: FrontendEventView) -> ServiceView {
        self.emit(ActionView::Notify(e))
    }

    /// The current configuration is written.
    #[verifier::opaque]
    pub open spec fn save_config(self) -> ServiceView {
        self.emit(
            ActionView::SaveConfig(
                SavedView {
                    mode: self.configured,
                    clients: self.clients.entries().map_values(
                        |e: (ClientHandle, ConfigView, StateView)| kept_client(e.1, e.2),
                    ),
                    keys: self.keys,
                    audio: self.audio,
                    endpoint: self.endpoint,
                },
            ),
        )
    }

    /// The frontends learn of the audio settings.
    pub open spec fn notify_audio_status(self) -> ServiceView {
        self.notify(
            FrontendEventView::AudioStatus {
                send: self.audio.send,
                receive: self.audio.receive,
                bitrate: self.audio.bitrate,
                buffer_ms: self.audio.buffer_ms,
                loopback_supported: true,
            },
        )
    }

    /// The audio settings change: they are kept and announced.
    pub open spec fn set_audio(self, audio: AudioSettingsView) -> ServiceView {
        ServiceView { audio, ..self }.save_config().notify_audio_status()
    }

    /// The frontends learn how a client stands.
    pub open spec fn broadcast_client(self, h: ClientHandle) -> ServiceView {
        self.notify(
            match self.clients.get(h) {
                Some(c) => FrontendEventView::State(h, c.config, c.state),
                None => FrontendEventView::NoSuchClient(h),
            },
        )
    }

    /// The host name of a client, if it has one, is resolved.
    pub open spec fn resolve(self, h: ClientHandle) -> ServiceView {
        match self.clients.get(h) {
            Some(c) => match c.config.hostname {
                Some(name) => self.emit(ActionView::Resolve(h, name)),
                None => self,
            },
            None => self,
        }
    }

    /// The host name of the server, if it has one, is resolved.
    pub open spec fn resolve_server(self) -> ServiceView {
        match self.endpoint.hostname {
            Some(name) => self.emit(ActionView::Resolve(SERVER_HANDLE, name)),
            None => self,
        }
    }

    /// All addresses of the server, in ascending order.
    pub open spec fn server_ips(self) -> Seq<IpAddr> {
        sorted_ips(self.endpoint.ips + self.server_dns_ips)
    }

    /// An enabled client dials the server, once an address is known.
    #[verifier::opaque]
    pub open spec fn push_server_target(self) -> ServiceView {
        if self.mode == OperationMode::Client && self.emulation_status == Status::Enabled
            && self.server_ips().len() > 0 {
            self.emit(
                ActionView::SetServer(
                    Some(TargetView { ips: self.server_ips(), port: self.endpoint.port }),
                ),
            )
        } else {
            self
        }
    }

    /// The frontends learn of the server that is dialed.
    pub open spec fn notify_endpoint(self) -> ServiceView {
        self.notify(
            FrontendEventView::ServerEndpoint {
                hostname: self.endpoint.hostname,
                ips: self.endpoint.ips,
                port: self.endpoint.port,
            },
        )
    }

    /// Another server is to be dialed. What was resolved belonged to the old
    /// one.
    #[verifier::opaque]
    pub open spec fn set_server_endpoint(self, endpoint: EndpointView) -> ServiceView {
        ServiceView {
            endpoint,
            server_dns_ips: seq![],
            ..self
        }.resolve_server().push_server_target().notify_endpoint()
    }

    /// A client is made inactive: its barrier comes down.
    #[verifier::opaque]
    pub open spec fn deactivate_client(self, h: ClientHandle) -> ServiceView {
        match self.clients.get(h) {
            Some(c) if c.state.active => ServiceView {
                clients: self.clients.set_active(h, false),
                ..self
            }.emit(ActionView::CaptureDestroy(h)).broadcast_client(h),
            _ => self,
        }
    }

    /// The client that is active at an edge, unless it is `h`, is made
    /// inactive.
    pub open spec fn clear_edge(self, h: ClientHandle, pos: Position) -> ServiceView {
        match self.clients.first(QueryView::ActiveAt(pos)) {
            Some(other) if other != h => self.deactivate_client(other),
            _ => self,
        }
    }

    /// A client is made active in place of any other at its edge. A server
    /// puts up a barrier there.
    #[verifier::opaque]
    pub open spec fn activate_client(self, h: ClientHandle) -> ServiceView {
        match self.clients.get(h) {
            None => self,
            Some(c) => {
                let cleared = self.resolve(h).clear_edge(h, c.config.pos);
                match cleared.clients.get(h) {
                    Some(d) if !d.state.active => {
                        let active = ServiceView {
                            clients: cleared.clients.set_active(h, true),
                            ..cleared
                        };
                        if self.mode == OperationMode::Server {
                            active.emit(
                                ActionView::CaptureCreate(h, c.config.pos, CaptureType::Default),
                            ).broadcast_client(h)
                        } else {
                            active.broadcast_client(h)
                        }
                    },
                    _ => cleared,
                }
            },
        }
    }

    /// A client moves to another edge. If it is active its barrier moves too.
    #[verifier::opaque]
    pub open spec fn update_pos(self, h: ClientHandle, pos: Position) -> ServiceView {
        let moved = ServiceView { clients: self.clients.set_pos(h, pos), ..self };
        match self.clients.get(h) {
            Some(c) if c.config.pos != pos && c.state.active => moved.deactivate_client(
                h,
            ).activate_client(h).broadcast_client(h),
            _ => moved.broadcast_client(h),
        }
    }

    /// A client is added.
    pub open spec fn add_client(self) -> ServiceView {
        let h = self.clients.next_handle();
        let added = ServiceView { clients: self.clients.add_client(), ..self };
        added.notify_created(h)
    }

    /// The frontends learn of a new client.
    #[verifier::opaque]
    pub open spec fn notify_created(self, h: ClientHandle) -> ServiceView {
        match self.clients.get(h) {
            Some(c) => self.notify(FrontendEventView::Created(h, c.config, c.state)),
            None => self,
        }
    }

    /// A client with a configuration is added.
    pub open spec fn add_with_config(self, config: ConfigView) -> ServiceView {
        let h = self.clients.next_handle();
        ServiceView { clients: self.clients.add_client().set_config(h, config), ..self }
    }

    /// A client that is fully configured is added.
    #[verifier::opaque]
    pub open spec fn add_configured_client(self, config: ConfigView, active: bool) -> ServiceView {
        let h = self.clients.next_handle();
        let added = self.add_with_config(config);
        if active {
            added.activate_client(h).notify_created(h)
        } else {
            added.notify_created(h)
        }
    }

    /// A client is removed: if it was active its barrier comes down.
    #[verifier::opaque]
    pub open spec fn remove_client(self, h: ClientHandle) -> ServiceView {
        let removed = ServiceView { clients: self.clients.remove(h), ..self };
        match self.clients.get(h) {
            Some(c) if c.state.active => removed.emit(ActionView::CaptureDestroy(h)).notify(
                FrontendEventView::Deleted(h),
            ),
            _ => removed.notify(FrontendEventView::Deleted(h)),
        }
    }

    /// The configuration of a client that a device is paired with.
    pub open spec fn paired_config(fingerprint: Seq<char>, pos: Position) -> ConfigView {
        ConfigView { fingerprint: Some(fingerprint), pos, ..default_config() }
    }

    /// A waiting connection becomes that of a client.
    #[verifier::opaque]
    pub open spec fn adopt_parked(self, h: ClientHandle, fingerprint: Seq<char>) -> ServiceView {
        let unparked = ManagerView {
            parked: self.clients.parked.remove(fingerprint),
            ..self.clients
        };
        if self.clients.parked.contains_key(fingerprint) {
            let addr = self.clients.parked[fingerprint];
            match unparked.get(h) {
                Some(c) => ServiceView {
                    clients: unparked.set_state(
                        h,
                        StateView { active_addr: Some(addr), ..c.state },
                    ),
                    ..self
                },
                None => ServiceView { clients: unparked, ..self },
            }
        } else {
            ServiceView { clients: unparked, ..self }
        }
    }

    /// A device gets an edge: its client moves there, or one is created for
    /// it, takes over the waiting connection, and is made active.
    #[verifier::opaque]
    pub open spec fn assign_position(self, fingerprint: Seq<char>, pos: Position) -> ServiceView {
        match self.clients.first(QueryView::Fingerprint(fingerprint)) {
            Some(h) => self.update_pos(h, pos).adopt_parked(h, fingerprint).activate_client(
                h,
            ).broadcast_client(h),
            None => {
                let h = self.clients.next_handle();
                self.add_with_config(Self::paired_config(fingerprint, pos)).notify_created(
                    h,
                ).adopt_parked(h, fingerprint).activate_client(h).broadcast_client(h)
            },
        }
    }

    /// No client is paired with a device yet.
    pub open spec fn pairs_anew(self, fingerprint: Seq<char>) -> bool {
        self.clients.first(QueryView::Fingerprint(fingerprint)) is None
    }

    /// A frontend's request adds a client.
    pub open spec fn request_adds(self, r: FrontendRequest) -> bool {
        match r {
            FrontendRequest::Create => true,
            FrontendRequest::CreateConfigured { .. } => true,
            FrontendRequest::AssignPosition { fingerprint, .. } => self.pairs_anew(fingerprint@),
            _ => false,
        }
    }

    /// An event of input capture adds a client.
    pub open spec fn event_adds(self, e: ICaptureEvent) -> bool {
        match e {
            ICaptureEvent::DeviceConnected { fingerprint, .. } => {
                &&& self.mode == OperationMode::Server
                &&& self.clients.first_free_position() is Some
                &&& self.pairs_anew(fingerprint@)
            },
            _ => false,
        }
    }

    /// An event of input emulation takes a new barrier.
    pub open spec fn event_enters(self, e: EmulationEvent) -> bool {
        match e {
            EmulationEvent::Entered { addr, pos, fingerprint } => {
                &&& self.mode == OperationMode::Client
                &&& incoming_index(self.incoming, addr) matches Some(i) ==> self.moves(
                    i,
                    pos,
                    fingerprint@,
                )
            },
            _ => false,
        }
    }

    /// A device that entered is another one now, or stands at another edge.
    pub open spec fn moves(self, i: int, pos: Position, fingerprint: Seq<char>) -> bool {
        self.incoming[i].fingerprint != fingerprint || self.incoming[i].pos != pos
    }

    /// The frontends learn of all clients.
    pub open spec fn enumerate(self) -> ServiceView {
        self.notify(FrontendEventView::Enumerate(self.clients.entries()))
    }

    /// The frontends learn of everything.
    #[verifier::opaque]
    pub open spec fn sync_frontend(self) -> ServiceView {
        self.enumerate().notify(FrontendEventView::OperationMode(self.mode)).notify(
            FrontendEventView::EmulationStatus(self.emulation_status),
        ).notify(FrontendEventView::CaptureStatus(self.capture_status)).notify(
            FrontendEventView::PortChanged(self.port, None),
        ).notify(FrontendEventView::PublicKeyFingerprint(self.fingerprint)).notify(
            FrontendEventView::AuthorizedUpdated(self.keys),
        ).notify_endpoint().notify_audio_status()
    }

    /// A device entered: an enter-only barrier detects the way back. A client
    /// captures only from here on, not from when it was opened.
    #[verifier::opaque]
    pub open spec fn add_incoming(
        self,
        addr: SocketAddr,
        pos: Position,
        fingerprint: Seq<char>,
    ) -> ServiceView {
        if self.mode != OperationMode::Client {
            self
        } else {
            let handle = (ENTER_HANDLE_BEGIN + self.next_trigger) as u64;
            let captured = self.emit(ActionView::CaptureSetEnabled(true)).emit(
                ActionView::CaptureCreate(handle, pos, CaptureType::EnterOnly),
            );
            ServiceView {
                incoming: self.incoming.push(IncomingView { handle, fingerprint, addr, pos }),
                next_trigger: (self.next_trigger + 1) as u64,
                ..captured
            }
        }
    }

    /// A device is gone: its barrier comes down, and with the last one a
    /// client stops capturing.
    #[verifier::opaque]
    pub open spec fn remove_incoming(self, addr: SocketAddr) -> ServiceView {
        match incoming_index(self.incoming, addr) {
            None => self,
            Some(i) => {
                let removed = ServiceView {
                    incoming: self.incoming.remove(i),
                    ..self.emit(ActionView::CaptureDestroy(self.incoming[i].handle))
                };
                if self.mode == OperationMode::Client && removed.incoming.len() == 0 {
                    removed.emit(ActionView::CaptureSetEnabled(false))
                } else {
                    removed
                }
            },
        }
    }

    /// A device that entered before enters again: at another edge, or as
    /// another device, it is treated as gone and come back.
    #[verifier::opaque]
    pub open spec fn update_incoming(
        self,
        addr: SocketAddr,
        pos: Position,
        fingerprint: Seq<char>,
    ) -> ServiceView {
        match incoming_index(self.incoming, addr) {
            None => self,
            Some(i) => if self.incoming[i].fingerprint == fingerprint && self.incoming[i].pos
                == pos {
                self
            } else {
                self.remove_incoming(addr).add_incoming(addr, pos, fingerprint).notify(
                    FrontendEventView::IncomingDisconnected(addr),
                ).notify(FrontendEventView::DeviceEntered { fingerprint, addr, pos })
            },
        }
    }

    /// Devices are gone one after the other.
    pub open spec fn drop_incoming(self, addrs: Seq<SocketAddr>) -> ServiceView
        decreases addrs.len(),
    {
        if addrs.len() == 0 {
            self
        } else {
            self.drop_incoming(addrs.drop_last()).remove_incoming(addrs.last()).notify(
                FrontendEventView::IncomingDisconnected(addrs.last()),
            )
        }
    }

    /// Devices that go change nothing else that the service knows.
    pub proof fn lemma_drop_incoming_keeps(self, addrs: Seq<SocketAddr>)
        ensures
            ({
                let v = self.drop_incoming(addrs);
                v == ServiceView { incoming: v.incoming, actions: v.actions, ..self }
            }),
        decreases addrs.len(),
    {
        reveal(ServiceView::remove_incoming);
        if addrs.len() > 0 {
            self.lemma_drop_incoming_keeps(addrs.drop_last());
        }
    }

    /// Barriers are put up for clients.
    pub open spec fn create_captures(self, handles: Seq<ClientHandle>) -> ServiceView
        decreases handles.len(),
    {
        if handles.len() == 0 {
            self
        } else {
            let v = self.create_captures(handles.drop_last());
            match v.clients.get(handles.last()) {
                Some(c) => v.emit(
                    ActionView::CaptureCreate(handles.last(), c.config.pos, CaptureType::Default),
                ),
                None => v,
            }
        }
    }

    /// Barriers of clients come down.
    pub open spec fn destroy_captures(self, handles: Seq<ClientHandle>) -> ServiceView
        decreases handles.len(),
    {
        if handles.len() == 0 {
            self
        } else {
            self.destroy_captures(handles.drop_last()).emit(
                ActionView::CaptureDestroy(handles.last()),
            )
        }
    }

    /// Another role. This ends what the old role did and does not start the
    /// new one, which is up to the user.
    #[verifier::opaque]
    pub open spec fn apply_operation_mode(self, mode: OperationMode) -> ServiceView {
        let v = ServiceView { mode, ..self };
        match mode {
            OperationMode::Unconfigured => v.emit(ActionView::StopListening).emit(
                ActionView::SetServer(None),
            ).emit(ActionView::CaptureSetEnabled(false)).emit(
                ActionView::EmulationSetEnabled(false),
            ),
            OperationMode::Server => v.drop_incoming(
                v.incoming.map_values(|i: IncomingView| i.addr),
            ).emit(ActionView::SetServer(None)).emit(ActionView::EmulationSetEnabled(false)).emit(
                ActionView::StartListening { port: v.port, audio: v.audio },
            ).create_captures(v.clients.active_handles()),
            OperationMode::Client => v.emit(ActionView::StopListening).destroy_captures(
                v.clients.active_handles(),
            ).emit(ActionView::CaptureSetEnabled(false)).resolve_server(),
        }
    }

    /// The user selects a role. A change is kept.
    #[verifier::opaque]
    pub open spec fn set_operation_mode(self, mode: OperationMode) -> ServiceView {
        if self.mode == mode {
            self.notify(FrontendEventView::OperationMode(mode))
        } else {
            ServiceView {
                configured: Some(mode),
                ..self.apply_operation_mode(mode)
            }.save_config().notify(FrontendEventView::OperationMode(mode))
        }
    }

    /// The user starts or stops what the role does, without changing it.
    #[verifier::opaque]
    pub open spec fn set_service_running(self, running: bool) -> ServiceView {
        match self.mode {
            OperationMode::Unconfigured => self,
            OperationMode::Server => if running {
                self.emit(ActionView::CaptureReenable)
            } else {
                self.emit(ActionView::CaptureSetEnabled(false))
            },
            OperationMode::Client => if running {
                let v = self.emit(ActionView::EmulationReenable).push_server_target();
                if self.incoming.len() > 0 {
                    v.emit(ActionView::CaptureReenable)
                } else {
                    v
                }
            } else {
                self.emit(ActionView::EmulationSetEnabled(false)).emit(
                    ActionView::SetServer(None),
                ).emit(ActionView::CaptureSetEnabled(false))
            },
        }
    }

    /// The frontends learn of the authorized fingerprints.
    pub open spec fn set_keys(self, keys: Map<Seq<char>, Seq<char>>) -> ServiceView {
        ServiceView { keys, ..self }.notify(FrontendEventView::AuthorizedUpdated(keys))
    }

    /// The listen port is to change.
    pub open spec fn change_port(self, port: u16) -> ServiceView {
        if self.port != port {
            self.emit(ActionView::RequestPortChange(port))
        } else {
            self.notify(FrontendEventView::PortChanged(self.port, None))
        }
    }

    /// With other clients.
    pub open spec fn with_clients(self, clients: ManagerView) -> ServiceView {
        ServiceView { clients, ..self }
    }

    /// A client's host name changes: the new one is resolved.
    #[verifier::opaque]
    pub open spec fn update_hostname(self, h: ClientHandle, name: Option<Seq<char>>) -> ServiceView {
        let named = self.with_clients(self.clients.set_hostname(h, name));
        match self.clients.get(h) {
            Some(c) if c.config.hostname != name => named.resolve(h).broadcast_client(h),
            _ => named.broadcast_client(h),
        }
    }

    /// A client's fixed addresses change.
    #[verifier::opaque]
    pub open spec fn update_fix_ips(self, h: ClientHandle, fix_ips: Seq<IpAddr>) -> ServiceView {
        match self.clients.get(h) {
            Some(c) => self.with_clients(
                self.clients.set_config(h, ConfigView { fix_ips, ..c.config }).update_ips(h),
            ).broadcast_client(h),
            None => self.broadcast_client(h),
        }
    }

    /// A client's hook command changes.
    #[verifier::opaque]
    pub open spec fn update_enter_hook(self, h: ClientHandle, cmd: Option<Seq<char>>) -> ServiceView {
        match self.clients.get(h) {
            Some(c) => self.with_clients(
                self.clients.set_config(h, ConfigView { cmd, ..c.config }),
            ).broadcast_client(h),
            None => self.broadcast_client(h),
        }
    }

    /// What a frontend's request does.
    pub open spec fn request(self, r: FrontendRequest) -> ServiceView {
        match r {
            FrontendRequest::Activate(h, active) => if active {
                self.activate_client(h).save_config()
            } else {
                self.deactivate_client(h).save_config()
            },
            FrontendRequest::AuthorizeKey(desc, fp) => self.set_keys(
                self.keys.insert(fp@, desc@),
            ).save_config(),
            FrontendRequest::ChangePort(port) => self.change_port(port),
            FrontendRequest::Create => self.add_client().save_config(),
            FrontendRequest::CreateConfigured { config, active } => self.add_configured_client(
                config@,
                active,
            ).save_config(),
            FrontendRequest::TestConnection { request_id, hostname, port } => self.emit(
                ActionView::TestConnection { request_id, hostname: hostname@, port },
            ),
            FrontendRequest::Delete(h) => self.remove_client(h).save_config(),
            FrontendRequest::EnableCapture => if self.mode == OperationMode::Server
                || self.incoming.len() > 0 {
                self.emit(ActionView::CaptureReenable)
            } else {
                self
            },
            FrontendRequest::EnableEmulation => if self.mode == OperationMode::Client {
                self.emit(ActionView::EmulationReenable)
            } else {
                self
            },
            FrontendRequest::SetServiceRunning(running) => self.set_service_running(running),
            FrontendRequest::SetOperationMode(mode) => self.set_operation_mode(mode),
            FrontendRequest::Enumerate() => self.enumerate(),
            FrontendRequest::UpdateFixIps(h, ips) => self.update_fix_ips(h, ips@).save_config(),
            FrontendRequest::UpdateHostname(h, name) => self.update_hostname(
                h,
                opt_view(name),
            ).save_config(),
            FrontendRequest::UpdatePort(h, port) => self.with_clients(
                self.clients.set_port(h, port),
            ).broadcast_client(h).save_config(),
            FrontendRequest::UpdatePosition(h, pos) => self.update_pos(h, pos).save_config(),
            FrontendRequest::AssignPosition { fingerprint, pos } => self.assign_position(
                fingerprint@,
                pos,
            ).save_config(),
            FrontendRequest::SetServer { hostname, ips, port } => self.set_server_endpoint(
                EndpointView { hostname: opt_view(hostname), ips: ips@, port },
            ).save_config(),
            FrontendRequest::ResolveDns(h) => self.resolve(h),
            FrontendRequest::Sync => self.sync_frontend(),
            FrontendRequest::RemoveAuthorizedKey(fp) => self.set_keys(
                self.keys.remove(fp@),
            ).save_config(),
            FrontendRequest::UpdateEnterHook(h, cmd) => self.update_enter_hook(h, opt_view(cmd)),
            FrontendRequest::SaveConfiguration => self.save_config(),
            FrontendRequest::SetAudioSend(send) => self.set_audio(
                AudioSettingsView { send, ..self.audio },
            ),
            FrontendRequest::SetAudioReceive(receive) => self.set_audio(
                AudioSettingsView { receive, ..self.audio },
            ),
            FrontendRequest::UpdateAudioSettings { bitrate, buffer_ms } => self.set_audio(
                AudioSettingsView { bitrate, buffer_ms, ..self.audio },
            ),
            FrontendRequest::SetAudioCaptureDevice(d) => self.set_audio(
                AudioSettingsView { capture_device: opt_view(d), ..self.audio },
            ),
            FrontendRequest::SetAudioPlaybackDevice(d) => self.set_audio(
                AudioSettingsView { playback_device: opt_view(d), ..self.audio },
            ),
            FrontendRequest::EnumerateAudioDevices => self.emit(ActionView::EnumerateAudioDevices),
        }
    }

    /// What an event of input emulation does.
    pub open spec fn emulation_event(self, e: EmulationEvent) -> ServiceView {
        match e {
            EmulationEvent::Entered { addr, pos, fingerprint } => if self.mode
                != OperationMode::Client {
                self
            } else if incoming_index(self.incoming, addr) is None {
                self.add_incoming(addr, pos, fingerprint@).notify(
                    FrontendEventView::DeviceEntered { fingerprint: fingerprint@, addr, pos },
                )
            } else {
                self.update_incoming(addr, pos, fingerprint@)
            },
            EmulationEvent::Disconnected { addr } => self.remove_incoming(addr).notify(
                FrontendEventView::IncomingDisconnected(addr),
            ),
            EmulationEvent::ConnectionTested { request_id, error } => self.notify(
                FrontendEventView::ConnectionTested { request_id, error: opt_view(error) },
            ),
            EmulationEvent::EmulationDisabled => ServiceView {
                emulation_status: Status::Disabled,
                ..self
            }.emit(ActionView::SetServer(None)).notify(
                FrontendEventView::EmulationStatus(Status::Disabled),
            ),
            EmulationEvent::EmulationEnabled => ServiceView {
                emulation_status: Status::Enabled,
                ..self
            }.push_server_target().notify(FrontendEventView::EmulationStatus(Status::Enabled)),
            EmulationEvent::ReleaseNotify => self.emit(ActionView::CaptureRelease),
            EmulationEvent::Connected { addr, fingerprint } => if self.mode
                == OperationMode::Client {
                self.notify(
                    FrontendEventView::DeviceConnected { addr, fingerprint: fingerprint@ },
                )
            } else {
                self
            },
        }
    }

    /// What an event of input capture does. A device that is not paired gets
    /// the first free edge, and only if there is none is the user asked.
    pub open spec fn capture_event(self, e: ICaptureEvent) -> ServiceView {
        match e {
            ICaptureEvent::CaptureBegin(h) => match barrier_index(self.incoming, h) {
                Some(i) => self.emit(ActionView::SendLeave(self.incoming[i].addr)),
                None => self,
            },
            ICaptureEvent::CaptureDisabled => ServiceView {
                capture_status: Status::Disabled,
                ..self
            }.notify(FrontendEventView::CaptureStatus(Status::Disabled)),
            ICaptureEvent::CaptureEnabled => ServiceView {
                capture_status: Status::Enabled,
                ..self
            }.notify(FrontendEventView::CaptureStatus(Status::Enabled)),
            ICaptureEvent::ClientEntered(h) => match self.clients.get(h) {
                Some(c) => match c.config.cmd {
                    Some(cmd) => self.emit(ActionView::SpawnHook(cmd)),
                    None => self,
                },
                None => self,
            },
            ICaptureEvent::ConnectionAttempt { fingerprint } => if self.mode
                == OperationMode::Server {
                self.notify(FrontendEventView::ConnectionAttempt { fingerprint: fingerprint@ })
            } else {
                self
            },
            ICaptureEvent::DeviceConnected { addr, fingerprint } => if self.mode
                == OperationMode::Server {
                match self.clients.first_free_position() {
                    Some(pos) => self.assign_position(fingerprint@, pos).save_config(),
                    None => self.notify(
                        FrontendEventView::DeviceConnected { addr, fingerprint: fingerprint@ },
                    ),
                }
            } else {
                self
            },
            ICaptureEvent::DeviceDisconnected { addr } => if self.mode == OperationMode::Server {
                self.notify(FrontendEventView::IncomingDisconnected(addr))
            } else {
                self
            },
            ICaptureEvent::PortChanged(Ok(port)) => ServiceView { port, ..self }.notify(
                FrontendEventView::PortChanged(port, None),
            ),
            ICaptureEvent::PortChanged(Err(e)) => self.notify(
                FrontendEventView::PortChanged(self.port, Some(e@)),
            ),
            ICaptureEvent::ClientStateChanged(h) => self.broadcast_client(h),
            ICaptureEvent::AudioStream { addr, active, latency_ms, packets_lost, level } =>
                self.notify(
                FrontendEventView::AudioStream { addr, active, latency_ms, packets_lost, level },
            ),
        }
    }
}

impl ServiceView {
    /// Clients are removed one after the other.
    pub open spec fn remove_clients(self, handles: Seq<ClientHandle>) -> ServiceView
        decreases handles.len(),
    {
        if handles.len() == 0 {
            self
        } else {
            self.remove_clients(handles.drop_last()).remove_client(handles.last())
        }
    }

    /// A client of the configuration file is added. Where it is active its
    /// barrier is put up.
    pub open spec fn load_client(self, c: ConfigClientView) -> ServiceView {
        let h = self.clients.next_handle();
        let loaded = self.with_clients(self.clients.insert(configured_client(c)));
        let created = FrontendEventView::Created(
            h,
            configured_client(c).config,
            configured_client(c).state,
        );
        if c.active {
            loaded.with_clients(loaded.clients.set_active(h, false)).activate_client(h).notify(
                created,
            )
        } else {
            loaded.notify(created)
        }
    }

    /// Clients of the configuration file are added one after the other.
    pub open spec fn load_clients(self, clients: Seq<ConfigClientView>) -> ServiceView
        decreases clients.len(),
    {
        if clients.len() == 0 {
            self
        } else {
            self.load_clients(clients.drop_last()).load_client(clients.last())
        }
    }

    /// With what the configuration file says and no step carries out.
    pub open spec fn read(self, new: SavedView) -> ServiceView {
        ServiceView {
            configured: new.mode,
            audio: new.audio,
            endpoint: new.endpoint,
            ..self
        }
    }

    /// The configuration file changed: its clients take the place of all
    /// others, and everything else that it keeps is taken over.
    pub open spec fn config_change(self, new: SavedView, release_bind: Seq<u32>) -> ServiceView {
        let read = self.read(new);
        let switched = if new.role() != self.mode {
            read.apply_operation_mode(new.role()).notify(
                FrontendEventView::OperationMode(new.role()),
            )
        } else {
            read
        };
        let loaded = ServiceView {
            keys: new.keys,
            ..switched.remove_clients(switched.clients.handles()).load_clients(new.clients).emit(
                ActionView::SetReleaseBind(release_bind),
            )
        };
        let dialed = if loaded.mode == OperationMode::Client {
            ServiceView {
                server_dns_ips: seq![],
                ..loaded
            }.resolve_server().push_server_target()
        } else {
            loaded
        };
        dialed.sync_frontend()
    }

    /// Clients are noted as inactive, without any barrier coming down.
    pub open spec fn forget_active(self, handles: Seq<ClientHandle>) -> ServiceView
        decreases handles.len(),
    {
        if handles.len() == 0 {
            self
        } else {
            let v = self.forget_active(handles.drop_last());
            v.with_clients(v.clients.set_active(handles.last(), false))
        }
    }

    /// Clients are made active one after the other.
    pub open spec fn activate_clients(self, handles: Seq<ClientHandle>) -> ServiceView
        decreases handles.len(),
    {
        if handles.len() == 0 {
            self
        } else {
            self.activate_clients(handles.drop_last()).activate_client(handles.last())
        }
    }

    /// The service starts: the barriers of all clients that were active are
    /// put up, and a client's server is resolved.
    pub open spec fn startup(self) -> ServiceView {
        let active = self.clients.active_handles();
        let v = self.forget_active(active).activate_clients(active);
        if v.mode == OperationMode::Client {
            v.resolve_server()
        } else {
            v
        }
    }

    /// What a step of name resolution does.
    pub open spec fn resolver_event(self, e: DnsEvent) -> ServiceView {
        match e {
            DnsEvent::Resolving(h) => if h == SERVER_HANDLE {
                self
            } else {
                self.with_clients(
                    match self.clients.get(h) {
                        Some(c) => self.clients.set_state(
                            h,
                            StateView { resolving: true, ..c.state },
                        ),
                        None => self.clients,
                    },
                ).broadcast_client(h)
            },
            DnsEvent::Resolved(h, ips) => {
                let ips = match ips {
                    Some(ips) => ips@,
                    None => seq![],
                };
                if h == SERVER_HANDLE {
                    ServiceView { server_dns_ips: ips, ..self }.push_server_target()
                } else {
                    self.with_clients(
                        match self.clients.get(h) {
                            Some(c) => self.clients.set_state(
                                h,
                                StateView { resolving: false, dns_ips: ips, ..c.state },
                            ).update_ips(h),
                            None => self.clients,
                        },
                    ).broadcast_client(h)
                }
            },
        }
    }
}

/// What name resolution tells the service.
#[derive(Debug)]
pub enum DnsEvent {
    /// a host name is being resolved
    Resolving(ClientHandle),
    /// a host name was resolved, or could not be
    Resolved(ClientHandle, Option<Vec<IpAddr>>),
}

/// The service.
pub struct Service {
    mode: OperationMode,
    configured: Option<OperationMode>,
    port: u16,
    audio: AudioSettings,
    endpoint: ServerEndpoint,
    keys: TextMap<String>,
    clients: ClientManager,
    fingerprint: String,
    capture_status: Status,
    emulation_status: Status,
    incoming: Vec<Incoming>,
    server_dns_ips: Vec<IpAddr>,
    next_trigger: u64,
    actions: Vec<Action>,
}

/// The entered devices of a list, as values.
closed spec fn incoming_views(incoming: Seq<Incoming>) -> Seq<IncomingView> {
    incoming.map_values(|i: Incoming| i@)
}

impl View for Service {
    type V = ServiceView;

    closed spec fn view(&self) -> ServiceView {
        ServiceView {
            mode: self.mode,
            configured: self.configured,
            port: self.port,
            audio: self.audio@,
            endpoint: self.endpoint@,
            keys: key_views(self.keys@),
            clients: self.clients@,
            fingerprint: self.fingerprint@,
            capture_status: self.capture_status,
            emulation_status: self.emulation_status,
            incoming: incoming_views(self.incoming@),
            server_dns_ips: self.server_dns_ips@,
            next_trigger: self.next_trigger,
            actions: action_views(self.actions@),
        }
    }
}

/// The keys of a map with another value for one of them, as values.
proof fn lemma_key_views_insert(m: Map<Seq<char>, String>, k: Seq<char>, v: String)
    ensures
        key_views(m.insert(k, v)) == key_views(m).insert(k, v@),
        key_views(m.remove(k)) == key_views(m).remove(k),
{
    assert(key_views(m.insert(k, v)) =~= key_views(m).insert(k, v@));
    assert(key_views(m.remove(k)) =~= key_views(m).remove(k));
}

impl Service {
    /// Adds to what is to be done.
    fn emit(&mut self, a: Action)
        ensures
            final(self)@ == old(self)@.emit(a@),
    {
        self.actions.push(a);
        assert(self@.actions =~= old(self)@.actions.push(a@));
    }

    /// Adds to what the frontends are told.
    fn notify_frontend(&mut self, e: FrontendEvent)
        ensures
            final(self)@ == old(self)@.notify(e@),
    {
        self.emit(Action::Notify(e));
    }

    /// Takes out what is to be done.
    pub fn take_actions(&mut self) -> (r: Vec<Action>)
        ensures
            action_views(r@) == old(self)@.actions,
            final(self)@ == (ServiceView { actions: seq![], ..old(self)@ }),
    {
        let mut r: Vec<Action> = Vec::new();
        core::mem::swap(&mut self.actions, &mut r);
        assert(self@.actions =~= seq![]);
        r
    }

    /// The clients.
    pub fn clients(&self) -> (c: &ClientManager)
        ensures
            c@ == self@.clients,
    {
        &self.clients
    }

    /// The clients, to note what connections learn of them.
    pub fn clients_mut(&mut self) -> (c: &mut ClientManager)
        ensures
            c@ == old(self)@.clients,
            final(self)@ == (ServiceView { clients: final(c)@, ..old(self)@ }),
    {
        &mut self.clients
    }

    /// The current role.
    pub fn operation_mode(&self) -> (m: OperationMode)
        ensures
            m == self@.mode,
    {
        self.mode
    }

    /// Whether there are handles left for the barriers of devices that enter.
    pub fn has_barriers(&self) -> (b: bool)
        ensures
            b == (self@.next_trigger < ENTER_HANDLE_BEGIN),
    {
        self.next_trigger < ENTER_HANDLE_BEGIN
    }

    /// The audio settings.
    pub fn audio_settings(&self) -> (a: AudioSettings)
        ensures
            a@ == self@.audio,
    {
        self.audio.clone()
    }

    /// Whether a fingerprint is authorized.
    pub fn is_authorized(&self, fingerprint: &str) -> (b: bool)
        ensures
            b == self@.keys.contains_key(fingerprint@),
    {
        assert(key_views(self.keys@).dom() =~= self.keys@.dom());
        self.keys.contains_key(fingerprint)
    }

    /// Keeps the current configuration.
    fn save_config(&mut self)
        ensures
            final(self)@ == old(self)@.save_config(),
    {
        proof {
            reveal(ServiceView::save_config);
        }
        let entries = self.clients.get_client_states();
        let mut clients: Vec<ConfigClient> = Vec::new();
        let ghost all = self@.clients.entries();
        let ghost kept = all.map_values(
            |e: (ClientHandle, ConfigView, StateView)| kept_client(e.1, e.2),
        );
        let mut i: usize = 0;
        while i < entries.len()
            invariant
                i <= entries@.len(),
                self@ == old(self)@,
                crate::ipc::entry_views(entries@) == all,
                kept == all.map_values(
                    |e: (ClientHandle, ConfigView, StateView)| kept_client(e.1, e.2),
                ),
                config_views(clients@) =~= kept.take(i as int),
            decreases entries@.len() - i,
        {
            let (_, c, s) = &entries[i];
            assert(all[i as int] == (entries@[i as int].0, c@, s@));
            let one = ConfigClient {
                ips: dedup_ips(&c.fix_ips),
                hostname: clone_opt(&c.hostname),
                port: c.port,
                pos: c.pos,
                active: s.active,
                enter_hook: clone_opt(&c.cmd),
                fingerprint: clone_opt(&c.fingerprint),
            };
            let ghost ov = one@;
            let ghost before = config_views(clients@);
            assert(ov == kept[i as int]);
            clients.push(one);
            assert(config_views(clients@) =~= before.push(ov));
            assert(kept.take(i + 1) =~= kept.take(i as int).push(kept[i as int]));
            i = i + 1;
        }
        assert(kept.take(i as int) =~= kept);
        let saved = SavedConfig {
            mode: self.configured,
            clients,
            keys: clone_map(&self.keys),
            audio: self.audio.clone(),
            endpoint: self.endpoint.clone(),
        };
        self.emit(Action::SaveConfig(saved));
    }

    /// Tells the frontends of the audio settings. New connections use them;
    /// running streams keep theirs.
    fn notify_audio_status(&mut self)
        ensures
            final(self)@ == old(self)@.notify_audio_status(),
    {
        let e = FrontendEvent::AudioStatus {
            send: self.audio.send,
            receive: self.audio.receive,
            bitrate: self.audio.bitrate,
            buffer_ms: self.audio.buffer_ms,
            loopback_supported: true,
        };
        self.notify_frontend(e);
    }

    /// Changes the audio settings.
    fn set_audio(&mut self, audio: AudioSettings)
        ensures
            final(self)@ == old(self)@.set_audio(audio@),
    {
        self.audio = audio;
        self.save_config();
        self.notify_audio_status();
    }

    /// Tells the frontends which audio devices there are.
    pub fn audio_devices(&mut self, capture: Vec<AudioDeviceInfo>, playback: Vec<AudioDeviceInfo>)
        ensures
            final(self)@ == old(self)@.notify(
                FrontendEventView::AudioDevices {
                    capture: device_views(capture@),
                    playback: device_views(playback@),
                },
            ),
    {
        self.notify_frontend(FrontendEvent::AudioDevices { capture, playback });
    }

    /// Tells the frontends how a client stands.
    fn broadcast_client(&mut self, handle: ClientHandle)
        ensures
            final(self)@ == old(self)@.broadcast_client(handle),
    {
        let e = match self.clients.get_state(handle) {
            Some((c, s)) => FrontendEvent::State(handle, c, s),
            None => FrontendEvent::NoSuchClient(handle),
        };
        self.notify_frontend(e);
    }

    /// Tells the frontends of a new client.
    fn notify_created(&mut self, handle: ClientHandle)
        ensures
            final(self)@ == old(self)@.notify_created(handle),
    {
        proof {
            reveal(ServiceView::notify_created);
        }
        if let Some((c, s)) = self.clients.get_state(handle) {
            self.notify_frontend(FrontendEvent::Created(handle, c, s));
        }
    }

    /// Has a client's host name resolved.
    fn resolve(&mut self, handle: ClientHandle)
        ensures
            final(self)@ == old(self)@.resolve(handle),
    {
        if let Some(hostname) = self.clients.get_hostname(handle) {
            self.emit(Action::Resolve(handle, hostname));
        }
    }

    /// Has the server's host name resolved.
    fn resolve_server(&mut self)
        ensures
            final(self)@ == old(self)@.resolve_server(),
    {
        if let Some(hostname) = clone_opt(&self.endpoint.hostname) {
            self.emit(Action::Resolve(SERVER_HANDLE, hostname));
        }
    }

    /// Has the server dialed, if this device is an enabled client and any
    /// address of the server is known.
    fn push_server_target(&mut self)
        ensures
            final(self)@ == old(self)@.push_server_target(),
    {
        proof {
            reveal(ServiceView::push_server_target);
        }
        if self.mode != OperationMode::Client || self.emulation_status != Status::Enabled {
            return;
        }
        let mut ips = clone_ips(&self.endpoint.ips);
        let mut dns = clone_ips(&self.server_dns_ips);
        ips.append(&mut dns);
        let ips = sort_ips(&ips);
        if ips.len() == 0 {
            return;
        }
        let target = ServerTarget { ips, port: self.endpoint.port };
        self.emit(Action::SetServer(Some(target)));
    }

    /// Tells the frontends which server is dialed.
    fn notify_endpoint(&mut self)
        ensures
            final(self)@ == old(self)@.notify_endpoint(),
    {
        let endpoint = self.endpoint.clone();
        self.notify_frontend(
            FrontendEvent::ServerEndpoint {
                hostname: endpoint.hostname,
                ips: endpoint.ips,
                port: endpoint.port,
            },
        );
    }

    /// Sets the server that is dialed.
    fn set_server_endpoint(&mut self, endpoint: ServerEndpoint)
        ensures
            final(self)@ == old(self)@.set_server_endpoint(endpoint@),
    {
        proof {
            reveal(ServiceView::set_server_endpoint);
        }
        self.endpoint = endpoint;
        self.server_dns_ips = Vec::new();
        assert(self@.server_dns_ips =~= seq![]);
        self.resolve_server();
        self.push_server_target();
        self.notify_endpoint();
    }

    /// Makes a client inactive.
    fn deactivate_client(&mut self, handle: ClientHandle)
        ensures
            final(self)@ == old(self)@.deactivate_client(handle),
    {
        proof {
            reveal(ServiceView::deactivate_client);
        }
        if self.clients.deactivate_client(handle) {
            self.emit(Action::CaptureDestroy(handle));
            self.broadcast_client(handle);
        } else {
            assert(self@.clients == old(self)@.clients) by {
                old(self)@.clients.lemma_set_active_same(handle, false);
            }
        }
    }

    /// Makes a client active, in place of any other at its edge.
    fn activate_client(&mut self, handle: ClientHandle)
        ensures
            final(self)@ == old(self)@.activate_client(handle),
    {
        proof {
            reveal(ServiceView::activate_client);
            reveal(ServiceView::deactivate_client);
        }
        self.resolve(handle);
        let pos = match self.clients.get_pos(handle) {
            Some(pos) => pos,
            None => return,
        };
        if let Some(other) = self.clients.client_at(pos) {
            if other != handle {
                self.deactivate_client(other);
            }
        }
        let ghost cleared = self@;
        if self.clients.activate_client(handle) {
            if self.mode == OperationMode::Server {
                self.emit(Action::CaptureCreate(handle, pos, CaptureType::Default));
            }
            self.broadcast_client(handle);
        } else {
            assert(self@.clients == cleared.clients) by {
                cleared.clients.lemma_set_active_same(handle, true);
            }
        }
    }

    /// Moves a client to another edge.
    fn update_pos(&mut self, handle: ClientHandle, pos: Position)
        ensures
            final(self)@ == old(self)@.update_pos(handle, pos),
    {
        proof {
            reveal(ServiceView::update_pos);
        }
        if self.clients.set_pos(handle, pos) {
            self.deactivate_client(handle);
            self.activate_client(handle);
        }
        self.broadcast_client(handle);
    }

    /// Adds a client.
    fn add_client(&mut self)
        requires
            old(self)@.clients.room(1),
        ensures
            final(self)@ == old(self)@.add_client(),
    {
        let handle = self.clients.add_client();
        self.notify_created(handle);
    }

    /// Adds a client with a configuration.
    fn add_with_config(&mut self, config: ClientConfig) -> (handle: ClientHandle)
        requires
            old(self)@.clients.room(1),
        ensures
            handle == old(self)@.clients.next_handle(),
            final(self)@ == old(self)@.add_with_config(config@),
    {
        let handle = self.clients.add_client();
        self.clients.set_config(handle, config);
        handle
    }

    /// Adds a client that is fully configured.
    fn add_configured_client(&mut self, config: ClientConfig, active: bool)
        requires
            old(self)@.clients.room(1),
        ensures
            final(self)@ == old(self)@.add_configured_client(config@, active),
    {
        proof {
            reveal(ServiceView::add_configured_client);
        }
        let handle = self.add_with_config(config);
        if active {
            self.activate_client(handle);
        }
        self.notify_created(handle);
    }

    /// Removes a client.
    fn remove_client(&mut self, handle: ClientHandle)
        ensures
            final(self)@ == old(self)@.remove_client(handle),
    {
        proof {
            reveal(ServiceView::remove_client);
        }
        let removed = self.clients.remove_client(handle);
        if let Some((_, s)) = removed {
            if s.active {
                self.emit(Action::CaptureDestroy(handle));
            }
        }
        self.notify_frontend(FrontendEvent::Deleted(handle));
    }

    /// Pairs a device: gives its client the edge, or creates one for it, lets
    /// it take over the waiting connection, and makes it active.
    fn assign_position(&mut self, fingerprint: String, pos: Position)
        requires
            old(self)@.pairs_anew(fingerprint@) ==> old(self)@.clients.room(1),
        ensures
            final(self)@ == old(self)@.assign_position(fingerprint@, pos),
    {
        proof {
            reveal(ServiceView::assign_position);
            reveal(ServiceView::adopt_parked);
        }
        let handle = match self.clients.get_client_by_fingerprint(fingerprint.as_str()) {
            Some(handle) => {
                self.update_pos(handle, pos);
                handle
            },
            None => {
                let config = ClientConfig {
                    fingerprint: Some(fingerprint.clone()),
                    pos,
                    ..ClientConfig::default()
                };
                assert(config@ == ServiceView::paired_config(fingerprint@, pos));
                let handle = self.add_with_config(config);
                self.notify_created(handle);
                handle
            },
        };
        let ghost before = self@;
        if let Some(addr) = self.clients.unpark(fingerprint.as_str()) {
            self.clients.set_active_addr(handle, Some(addr));
        }
        assert(self@ == before.adopt_parked(handle, fingerprint@));
        self.activate_client(handle);
        self.broadcast_client(handle);
    }

    /// Tells the frontends of all clients.
    fn enumerate(&mut self)
        ensures
            final(self)@ == old(self)@.enumerate(),
    {
        let clients = self.clients.get_client_states();
        self.notify_frontend(FrontendEvent::Enumerate(clients));
    }

    /// Tells the frontends everything.
    fn sync_frontend(&mut self)
        ensures
            final(self)@ == old(self)@.sync_frontend(),
    {
        proof {
            reveal(ServiceView::sync_frontend);
        }
        self.enumerate();
        self.notify_frontend(FrontendEvent::OperationMode(self.mode));
        self.notify_frontend(FrontendEvent::EmulationStatus(self.emulation_status));
        self.notify_frontend(FrontendEvent::CaptureStatus(self.capture_status));
        self.notify_frontend(FrontendEvent::PortChanged(self.port, None));
        let fingerprint = self.fingerprint.clone();
        self.notify_frontend(FrontendEvent::PublicKeyFingerprint(fingerprint));
        let keys = clone_map(&self.keys);
        self.notify_frontend(FrontendEvent::AuthorizedUpdated(keys));
        self.notify_endpoint();
        self.notify_audio_status();
    }

    /// The place of the entered device with an address.
    fn incoming_at(&self, addr: SocketAddr) -> (r: Option<usize>)
        ensures
            match r {
                Some(i) => i < self.incoming@.len() && incoming_index(self@.incoming, addr) == Some(
                    i as int,
                ),
                None => incoming_index(self@.incoming, addr) is None,
            },
    {
        let mut r: Option<usize> = None;
        let mut i: usize = 0;
        let ghost all = self@.incoming;
        while i < self.incoming.len()
            invariant
                i <= self.incoming@.len(),
                all == self@.incoming,
                match r {
                    Some(k) => k < i && incoming_index(all.take(i as int), addr) == Some(k as int),
                    None => incoming_index(all.take(i as int), addr) is None,
                },
            decreases self.incoming@.len() - i,
        {
            assert(all.take(i + 1).drop_last() =~= all.take(i as int));
            if r.is_none() && self.incoming[i].addr == addr {
                r = Some(i);
            }
            i = i + 1;
        }
        assert(all.take(i as int) =~= all);
        r
    }

    /// Notes that a device entered.
    fn add_incoming(&mut self, addr: SocketAddr, pos: Position, fingerprint: String)
        requires
            old(self)@.mode == OperationMode::Client ==> old(self)@.next_trigger
                < ENTER_HANDLE_BEGIN,
        ensures
            final(self)@ == old(self)@.add_incoming(addr, pos, fingerprint@),
    {
        proof {
            reveal(ServiceView::add_incoming);
        }
        if self.mode != OperationMode::Client {
            return;
        }
        self.emit(Action::CaptureSetEnabled(true));
        let handle: u64 = ENTER_HANDLE_BEGIN + self.next_trigger;
        self.next_trigger = self.next_trigger + 1;
        self.emit(Action::CaptureCreate(handle, pos, CaptureType::EnterOnly));
        let one = Incoming { handle, fingerprint, addr, pos };
        let ghost ov = one@;
        self.incoming.push(one);
        assert(self@.incoming =~= old(self)@.incoming.push(ov));
    }

    /// Notes that a device is gone. Tells whether it had entered.
    fn remove_incoming(&mut self, addr: SocketAddr) -> (r: Option<SocketAddr>)
        ensures
            final(self)@ == old(self)@.remove_incoming(addr),
            r == if incoming_index(old(self)@.incoming, addr) is Some {
                Some(addr)
            } else {
                None
            },
    {
        proof {
            reveal(ServiceView::remove_incoming);
        }
        let i = match self.incoming_at(addr) {
            Some(i) => i,
            None => return None,
        };
        proof {
            lemma_incoming_index(self@.incoming, addr);
        }
        let handle: u64 = self.incoming[i].handle;
        self.emit(Action::CaptureDestroy(handle));
        let removed = self.incoming.remove(i);
        assert(self@.incoming =~= old(self)@.incoming.remove(i as int));
        if self.mode == OperationMode::Client && self.incoming.len() == 0 {
            self.emit(Action::CaptureSetEnabled(false));
        }
        Some(removed.addr)
    }

    /// Notes that a device that had entered entered again.
    fn update_incoming(&mut self, addr: SocketAddr, pos: Position, fingerprint: String)
        requires
            incoming_index(old(self)@.incoming, addr) matches Some(i) ==> old(self)@.moves(
                i,
                pos,
                fingerprint@,
            ) ==> old(self)@.next_trigger < ENTER_HANDLE_BEGIN,
        ensures
            final(self)@ == old(self)@.update_incoming(addr, pos, fingerprint@),
    {
        proof {
            reveal(ServiceView::update_incoming);
            reveal(ServiceView::remove_incoming);
        }
        let i = match self.incoming_at(addr) {
            Some(i) => i,
            None => return,
        };
        let changed: bool = !same(self.incoming[i].fingerprint.as_str(), fingerprint.as_str())
            || self.incoming[i].pos != pos;
        if changed {
            let _ = self.remove_incoming(addr);
            self.add_incoming(addr, pos, fingerprint.clone());
            self.notify_frontend(FrontendEvent::IncomingDisconnected(addr));
            self.notify_frontend(FrontendEvent::DeviceEntered { fingerprint, addr, pos });
        }
    }

    /// Changes the role.
    fn apply_operation_mode(&mut self, mode: OperationMode)
        ensures
            final(self)@ == old(self)@.apply_operation_mode(mode),
    {
        proof {
            reveal(ServiceView::apply_operation_mode);
        }
        self.mode = mode;
        let ghost start = self@;
        match mode {
            OperationMode::Unconfigured => {
                self.emit(Action::StopListening);
                self.emit(Action::SetServer(None));
                self.emit(Action::CaptureSetEnabled(false));
                self.emit(Action::EmulationSetEnabled(false));
            },
            OperationMode::Server => {
                self.drop_all_incoming();
                self.emit(Action::SetServer(None));
                self.emit(Action::EmulationSetEnabled(false));
                let audio = self.audio.clone();
                self.emit(Action::StartListening { port: self.port, audio });
                proof {
                    start.lemma_drop_incoming_keeps(
                        start.incoming.map_values(|i: IncomingView| i.addr),
                    );
                }
                self.create_captures();
            },
            OperationMode::Client => {
                self.emit(Action::StopListening);
                self.destroy_captures();
                self.emit(Action::CaptureSetEnabled(false));
                self.resolve_server();
            },
        }
    }

    /// Notes that all devices that entered are gone.
    fn drop_all_incoming(&mut self)
        ensures
            final(self)@ == old(self)@.drop_incoming(
                old(self)@.incoming.map_values(|i: IncomingView| i.addr),
            ),
    {
        let ghost all = self@.incoming.map_values(|i: IncomingView| i.addr);
        let mut addrs: Vec<SocketAddr> = Vec::new();
        let mut i: usize = 0;
        while i < self.incoming.len()
            invariant
                i <= self.incoming@.len(),
                self@ == old(self)@,
                all == self@.incoming.map_values(|i: IncomingView| i.addr),
                addrs@ =~= all.take(i as int),
            decreases self.incoming@.len() - i,
        {
            addrs.push(self.incoming[i].addr);
            i = i + 1;
        }
        assert(addrs@ =~= all);
        let mut k: usize = 0;
        assert(addrs@.take(0) =~= seq![]);
        while k < addrs.len()
            invariant
                k <= addrs@.len(),
                self@ == old(self)@.drop_incoming(addrs@.take(k as int)),
            decreases addrs@.len() - k,
        {
            assert(addrs@.take(k + 1).drop_last() =~= addrs@.take(k as int));
            let _ = self.remove_incoming(addrs[k]);
            self.notify_frontend(FrontendEvent::IncomingDisconnected(addrs[k]));
            k = k + 1;
        }
        assert(addrs@.take(k as int) =~= addrs@);
    }

    /// Puts up the barriers of all active clients.
    fn create_captures(&mut self)
        ensures
            final(self)@ == old(self)@.create_captures(old(self)@.clients.active_handles()),
    {
        let handles = self.clients.active_clients();
        let mut k: usize = 0;
        assert(handles@.take(0) =~= seq![]);
        while k < handles.len()
            invariant
                k <= handles@.len(),
                self@ == old(self)@.create_captures(handles@.take(k as int)),
            decreases handles@.len() - k,
        {
            assert(handles@.take(k + 1).drop_last() =~= handles@.take(k as int));
            if let Some(pos) = self.clients.get_pos(handles[k]) {
                self.emit(Action::CaptureCreate(handles[k], pos, CaptureType::Default));
            }
            k = k + 1;
        }
        assert(handles@.take(k as int) =~= handles@);
    }

    /// Takes down the barriers of all active clients.
    fn destroy_captures(&mut self)
        ensures
            final(self)@ == old(self)@.destroy_captures(old(self)@.clients.active_handles()),
    {
        let handles = self.clients.active_clients();
        let mut k: usize = 0;
        assert(handles@.take(0) =~= seq![]);
        while k < handles.len()
            invariant
                k <= handles@.len(),
                self@ == old(self)@.destroy_captures(handles@.take(k as int)),
            decreases handles@.len() - k,
        {
            assert(handles@.take(k + 1).drop_last() =~= handles@.take(k as int));
            self.emit(Action::CaptureDestroy(handles[k]));
            k = k + 1;
        }
        assert(handles@.take(k as int) =~= handles@);
    }

    /// Selects a role.
    fn set_operation_mode(&mut self, mode: OperationMode)
        ensures
            final(self)@ == old(self)@.set_operation_mode(mode),
    {
        proof {
            reveal(ServiceView::set_operation_mode);
        }
        if self.mode == mode {
            self.notify_frontend(FrontendEvent::OperationMode(mode));
            return;
        }
        self.apply_operation_mode(mode);
        self.configured = Some(mode);
        self.save_config();
        self.notify_frontend(FrontendEvent::OperationMode(mode));
    }

    /// Starts or stops what the role does.
    fn set_service_running(&mut self, running: bool)
        ensures
            final(self)@ == old(self)@.set_service_running(running),
    {
        proof {
            reveal(ServiceView::set_service_running);
            reveal(ServiceView::push_server_target);
        }
        match self.mode {
            OperationMode::Unconfigured => {},
            OperationMode::Server => {
                if running {
                    self.emit(Action::CaptureReenable);
                } else {
                    self.emit(Action::CaptureSetEnabled(false));
                }
            },
            OperationMode::Client => {
                if running {
                    self.emit(Action::EmulationReenable);
                    self.push_server_target();
                    if self.incoming.len() > 0 {
                        self.emit(Action::CaptureReenable);
                    }
                } else {
                    self.emit(Action::EmulationSetEnabled(false));
                    self.emit(Action::SetServer(None));
                    self.emit(Action::CaptureSetEnabled(false));
                }
            },
        }
    }

    /// Tells the frontends of the authorized fingerprints.
    fn notify_keys(&mut self)
        ensures
            final(self)@ == old(self)@.notify(
                FrontendEventView::AuthorizedUpdated(old(self)@.keys),
            ),
    {
        let keys = clone_map(&self.keys);
        self.notify_frontend(FrontendEvent::AuthorizedUpdated(keys));
    }

    /// Authorizes a fingerprint.
    fn add_authorized_key(&mut self, desc: String, fp: String)
        ensures
            final(self)@ == old(self)@.set_keys(old(self)@.keys.insert(fp@, desc@)),
    {
        proof {
            lemma_key_views_insert(self.keys@, fp@, desc);
        }
        self.keys.insert(fp, desc);
        self.notify_keys();
    }

    /// Withdraws a fingerprint's authorization.
    fn remove_authorized_key(&mut self, fp: String)
        ensures
            final(self)@ == old(self)@.set_keys(old(self)@.keys.remove(fp@)),
    {
        proof {
            lemma_key_views_insert(self.keys@, fp@, fp);
        }
        let _ = self.keys.remove(fp.as_str());
        self.notify_keys();
    }

    /// Asks for another listen port.
    fn change_port(&mut self, port: u16)
        ensures
            final(self)@ == old(self)@.change_port(port),
    {
        if self.port != port {
            self.emit(Action::RequestPortChange(port));
        } else {
            self.notify_frontend(FrontendEvent::PortChanged(self.port, None));
        }
    }

    /// Changes a client's fixed addresses.
    fn update_fix_ips(&mut self, handle: ClientHandle, fix_ips: Vec<IpAddr>)
        ensures
            final(self)@ == old(self)@.update_fix_ips(handle, fix_ips@),
    {
        proof {
            reveal(ServiceView::update_fix_ips);
        }
        self.clients.set_fix_ips(handle, fix_ips);
        self.broadcast_client(handle);
    }

    /// Changes a client's host name.
    fn update_hostname(&mut self, handle: ClientHandle, hostname: Option<String>)
        ensures
            final(self)@ == old(self)@.update_hostname(handle, opt_view(hostname)),
    {
        proof {
            reveal(ServiceView::update_hostname);
        }
        if self.clients.set_hostname(handle, hostname) {
            self.resolve(handle);
        }
        self.broadcast_client(handle);
    }

    /// Changes a client's port.
    fn update_port(&mut self, handle: ClientHandle, port: u16)
        ensures
            final(self)@ == old(self)@.with_clients(
                old(self)@.clients.set_port(handle, port),
            ).broadcast_client(handle),
    {
        self.clients.set_port(handle, port);
        self.broadcast_client(handle);
    }

    /// Changes a client's hook command.
    fn update_enter_hook(&mut self, handle: ClientHandle, enter_hook: Option<String>)
        ensures
            final(self)@ == old(self)@.update_enter_hook(handle, opt_view(enter_hook)),
    {
        proof {
            reveal(ServiceView::update_enter_hook);
        }
        self.clients.set_enter_hook(handle, enter_hook);
        self.broadcast_client(handle);
    }

    /// Whether there is room for the client that a device would get.
    fn has_room_for_device(&self, fingerprint: &str) -> (b: bool)
        ensures
            b == (self@.pairs_anew(fingerprint@) ==> self@.clients.room(1)),
    {
        self.clients.has_room(1) || self.clients.get_client_by_fingerprint(fingerprint).is_some()
    }

    /// Whether there is room for what a request adds.
    pub fn has_room_for_request(&self, request: &FrontendRequest) -> (b: bool)
        ensures
            b == (self@.request_adds(*request) ==> self@.clients.room(1)),
    {
        match request {
            FrontendRequest::Create => self.clients.has_room(1),
            FrontendRequest::CreateConfigured { .. } => self.clients.has_room(1),
            FrontendRequest::AssignPosition { fingerprint, .. } => self.has_room_for_device(
                fingerprint.as_str(),
            ),
            _ => true,
        }
    }

    /// Whether there is room for what an event of input capture adds.
    pub fn has_room_for_event(&self, event: &ICaptureEvent) -> (b: bool)
        ensures
            b == (self@.event_adds(*event) ==> self@.clients.room(1)),
    {
        match event {
            ICaptureEvent::DeviceConnected { fingerprint, .. } => {
                self.mode != OperationMode::Server || self.clients.first_free_position().is_none()
                    || self.has_room_for_device(fingerprint.as_str())
            },
            _ => true,
        }
    }

    /// Does what a frontend asks.
    pub fn handle_frontend_request(&mut self, request: FrontendRequest)
        requires
            old(self)@.request_adds(request) ==> old(self)@.clients.room(1),
        ensures
            final(self)@ == old(self)@.request(request),
    {
        match request {
            FrontendRequest::Activate(handle, active) => {
                if active {
                    self.activate_client(handle);
                } else {
                    self.deactivate_client(handle);
                }
                self.save_config();
            },
            FrontendRequest::AuthorizeKey(desc, fp) => {
                self.add_authorized_key(desc, fp);
                self.save_config();
            },
            FrontendRequest::ChangePort(port) => self.change_port(port),
            FrontendRequest::Create => {
                self.add_client();
                self.save_config();
            },
            FrontendRequest::CreateConfigured { config, active } => {
                self.add_configured_client(config, active);
                self.save_config();
            },
            FrontendRequest::TestConnection { request_id, hostname, port } => self.emit(
                Action::TestConnection { request_id, hostname, port },
            ),
            FrontendRequest::Delete(handle) => {
                self.remove_client(handle);
                self.save_config();
            },
            FrontendRequest::EnableCapture => {
                if self.mode == OperationMode::Server || self.incoming.len() > 0 {
                    self.emit(Action::CaptureReenable);
                }
            },
            FrontendRequest::EnableEmulation => {
                if self.mode == OperationMode::Client {
                    self.emit(Action::EmulationReenable);
                }
            },
            FrontendRequest::SetServiceRunning(running) => self.set_service_running(running),
            FrontendRequest::SetOperationMode(mode) => self.set_operation_mode(mode),
            FrontendRequest::Enumerate() => self.enumerate(),
            FrontendRequest::UpdateFixIps(handle, fix_ips) => {
                self.update_fix_ips(handle, fix_ips);
                self.save_config();
            },
            FrontendRequest::UpdateHostname(handle, host) => {
                self.update_hostname(handle, host);
                self.save_config();
            },
            FrontendRequest::UpdatePort(handle, port) => {
                self.update_port(handle, port);
                self.save_config();
            },
            FrontendRequest::UpdatePosition(handle, pos) => {
                self.update_pos(handle, pos);
                self.save_config();
            },
            FrontendRequest::AssignPosition { fingerprint, pos } => {
                self.assign_position(fingerprint, pos);
                self.save_config();
            },
            FrontendRequest::SetServer { hostname, ips, port } => {
                self.set_server_endpoint(ServerEndpoint { hostname, ips, port });
                self.save_config();
            },
            FrontendRequest::ResolveDns(handle) => self.resolve(handle),
            FrontendRequest::Sync => self.sync_frontend(),
            FrontendRequest::RemoveAuthorizedKey(key) => {
                self.remove_authorized_key(key);
                self.save_config();
            },
            FrontendRequest::UpdateEnterHook(handle, enter_hook) => {
                self.update_enter_hook(handle, enter_hook)
            },
            FrontendRequest::SaveConfiguration => self.save_config(),
            FrontendRequest::SetAudioSend(send) => {
                let audio = self.audio.clone();
                self.set_audio(AudioSettings { send, ..audio });
            },
            FrontendRequest::SetAudioReceive(receive) => {
                let audio = self.audio.clone();
                self.set_audio(AudioSettings { receive, ..audio });
            },
            FrontendRequest::UpdateAudioSettings { bitrate, buffer_ms } => {
                let audio = self.audio.clone();
                self.set_audio(AudioSettings { bitrate, buffer_ms, ..audio });
            },
            FrontendRequest::SetAudioCaptureDevice(device) => {
                let audio = self.audio.clone();
                self.set_audio(AudioSettings { capture_device: device, ..audio });
            },
            FrontendRequest::SetAudioPlaybackDevice(device) => {
                let audio = self.audio.clone();
                self.set_audio(AudioSettings { playback_device: device, ..audio });
            },
            FrontendRequest::EnumerateAudioDevices => self.emit(Action::EnumerateAudioDevices),
        }
    }

    /// Whether there is a handle left for the barrier that an event takes.
    pub fn has_barrier_for(&self, event: &EmulationEvent) -> (b: bool)
        ensures
            b == (self@.event_enters(*event) ==> self@.next_trigger < ENTER_HANDLE_BEGIN),
    {
        match event {
            EmulationEvent::Entered { addr, pos, fingerprint } => {
                if self.mode != OperationMode::Client || self.has_barriers() {
                    return true;
                }
                match self.incoming_at(*addr) {
                    Some(i) => {
                        same(self.incoming[i].fingerprint.as_str(), fingerprint.as_str())
                            && self.incoming[i].pos == *pos
                    },
                    None => false,
                }
            },
            _ => true,
        }
    }

    /// Reacts to input emulation.
    pub fn handle_emulation_event(&mut self, event: EmulationEvent)
        requires
            old(self)@.event_enters(event) ==> old(self)@.next_trigger < ENTER_HANDLE_BEGIN,
        ensures
            final(self)@ == old(self)@.emulation_event(event),
    {
        proof {
            reveal(ServiceView::push_server_target);
        }
        match event {
            EmulationEvent::Entered { addr, pos, fingerprint } => {
                if self.mode != OperationMode::Client {
                    return;
                }
                if self.incoming_at(addr).is_none() {
                    self.add_incoming(addr, pos, fingerprint.clone());
                    self.notify_frontend(FrontendEvent::DeviceEntered { fingerprint, addr, pos });
                } else {
                    self.update_incoming(addr, pos, fingerprint);
                }
            },
            EmulationEvent::Disconnected { addr } => {
                let _ = self.remove_incoming(addr);
                self.notify_frontend(FrontendEvent::IncomingDisconnected(addr));
            },
            EmulationEvent::ConnectionTested { request_id, error } => self.notify_frontend(
                FrontendEvent::ConnectionTested { request_id, error },
            ),
            EmulationEvent::EmulationDisabled => {
                self.emulation_status = Status::Disabled;
                self.emit(Action::SetServer(None));
                self.notify_frontend(FrontendEvent::EmulationStatus(self.emulation_status));
            },
            EmulationEvent::EmulationEnabled => {
                self.emulation_status = Status::Enabled;
                self.push_server_target();
                self.notify_frontend(FrontendEvent::EmulationStatus(self.emulation_status));
            },
            EmulationEvent::ReleaseNotify => self.emit(Action::CaptureRelease),
            EmulationEvent::Connected { addr, fingerprint } => {
                if self.mode == OperationMode::Client {
                    self.notify_frontend(FrontendEvent::DeviceConnected { addr, fingerprint });
                }
            },
        }
    }

    /// The address of the entered device with a barrier.
    fn barrier_addr(&self, handle: ClientHandle) -> (r: Option<SocketAddr>)
        ensures
            r == (match barrier_index(self@.incoming, handle) {
                Some(i) => Some(self@.incoming[i].addr),
                None => None,
            }),
    {
        let mut r: Option<usize> = None;
        let mut i: usize = 0;
        let ghost all = self@.incoming;
        while i < self.incoming.len()
            invariant
                i <= self.incoming@.len(),
                all == self@.incoming,
                match r {
                    Some(k) => k < i && barrier_index(all.take(i as int), handle) == Some(k as int),
                    None => barrier_index(all.take(i as int), handle) is None,
                },
            decreases self.incoming@.len() - i,
        {
            assert(all.take(i + 1).drop_last() =~= all.take(i as int));
            if r.is_none() && self.incoming[i].handle == handle {
                r = Some(i);
            }
            i = i + 1;
        }
        assert(all.take(i as int) =~= all);
        match r {
            Some(k) => Some(self.incoming[k].addr),
            None => None,
        }
    }

    /// Reacts to input capture.
    pub fn handle_capture_event(&mut self, event: ICaptureEvent)
        requires
            old(self)@.event_adds(event) ==> old(self)@.clients.room(1),
        ensures
            final(self)@ == old(self)@.capture_event(event),
    {
        match event {
            ICaptureEvent::CaptureBegin(handle) => {
                if let Some(addr) = self.barrier_addr(handle) {
                    self.emit(Action::SendLeave(addr));
                }
            },
            ICaptureEvent::CaptureDisabled => {
                self.capture_status = Status::Disabled;
                self.notify_frontend(FrontendEvent::CaptureStatus(self.capture_status));
            },
            ICaptureEvent::CaptureEnabled => {
                self.capture_status = Status::Enabled;
                self.notify_frontend(FrontendEvent::CaptureStatus(self.capture_status));
            },
            ICaptureEvent::ClientEntered(handle) => {
                if let Some(cmd) = self.clients.get_enter_cmd(handle) {
                    self.emit(Action::SpawnHook(cmd));
                }
            },
            ICaptureEvent::ConnectionAttempt { fingerprint } => {
                if self.mode == OperationMode::Server {
                    self.notify_frontend(FrontendEvent::ConnectionAttempt { fingerprint });
                }
            },
            ICaptureEvent::DeviceConnected { addr, fingerprint } => {
                if self.mode == OperationMode::Server {
                    match self.clients.first_free_position() {
                        Some(pos) => {
                            self.assign_position(fingerprint, pos);
                            self.save_config();
                        },
                        None => self.notify_frontend(
                            FrontendEvent::DeviceConnected { addr, fingerprint },
                        ),
                    }
                }
            },
            ICaptureEvent::DeviceDisconnected { addr } => {
                if self.mode == OperationMode::Server {
                    self.notify_frontend(FrontendEvent::IncomingDisconnected(addr));
                }
            },
            ICaptureEvent::PortChanged(port) => match port {
                Ok(port) => {
                    self.port = port;
                    self.notify_frontend(FrontendEvent::PortChanged(port, None));
                },
                Err(e) => self.notify_frontend(FrontendEvent::PortChanged(self.port, Some(e))),
            },
            ICaptureEvent::ClientStateChanged(handle) => self.broadcast_client(handle),
            ICaptureEvent::AudioStream { addr, active, latency_ms, packets_lost, level } =>
                self.notify_frontend(
                FrontendEvent::AudioStream { addr, active, latency_ms, packets_lost, level },
            ),
        }
    }

    /// Reacts to name resolution.
    pub fn handle_resolver_event(&mut self, event: DnsEvent)
        ensures
            final(self)@ == old(self)@.resolver_event(event),
    {
        match event {
            DnsEvent::Resolving(handle) => {
                if handle == SERVER_HANDLE {
                    return;
                }
                self.clients.set_resolving(handle, true);
                self.broadcast_client(handle);
            },
            DnsEvent::Resolved(handle, ips) => {
                let ips: Vec<IpAddr> = match ips {
                    Some(ips) => ips,
                    None => Vec::new(),
                };
                let ghost found = ips@;
                assert(ips@ =~= (match event {
                    DnsEvent::Resolved(_, Some(ips)) => ips@,
                    _ => seq![],
                }));
                if handle == SERVER_HANDLE {
                    self.server_dns_ips = ips;
                    self.push_server_target();
                    return;
                }
                self.clients.set_resolving(handle, false);
                self.clients.set_dns_ips(handle, ips);
                proof {
                    let before = old(self)@.clients;
                    if let Some(c) = before.get(handle) {
                        let mid = before.set_state(handle, StateView { resolving: false, ..c.state });
                        let d = mid.get(handle)->0;
                        assert(mid.set_state(handle, StateView { dns_ips: found, ..d.state }).slots
                            =~= before.set_state(
                            handle,
                            StateView { resolving: false, dns_ips: found, ..c.state },
                        ).slots);
                    }
                }
                self.broadcast_client(handle);
            },
        }
    }
}

impl ServiceView {
    /// A client that is made inactive changes nothing but itself.
    proof fn lemma_deactivate_frame(self, h: ClientHandle)
        ensures
            ({
                let v = self.deactivate_client(h);
                &&& v == ServiceView { clients: v.clients, actions: v.actions, ..self }
                &&& v.clients == self.clients.set_active(h, false)
            }),
    {
        reveal(ServiceView::deactivate_client);
        if !(self.clients.get(h) matches Some(c) && c.state.active) {
            self.clients.lemma_set_active_same(h, false);
        }
    }

    /// What becomes of the clients when one is made active.
    pub open spec fn activated(self, h: ClientHandle) -> ManagerView {
        match self.clients.get(h) {
            None => self.clients,
            Some(c) => match self.clients.first(QueryView::ActiveAt(c.config.pos)) {
                Some(other) if other != h => self.clients.set_active(other, false).set_active(
                    h,
                    true,
                ),
                _ => self.clients.set_active(h, true),
            },
        }
    }

    /// A client that is made active changes nothing but itself and the client
    /// it takes the edge from.
    proof fn lemma_activate_frame(self, h: ClientHandle)
        ensures
            ({
                let v = self.activate_client(h);
                &&& v == ServiceView { clients: v.clients, actions: v.actions, ..self }
                &&& v.clients == self.activated(h)
                &&& v.clients.slots.len() == self.clients.slots.len()
                &&& v.clients.count() == self.clients.count()
                &&& v.clients.free == self.clients.free
                &&& v.clients.parked == self.clients.parked
            }),
    {
        reveal(ServiceView::activate_client);
        if let Some(c) = self.clients.get(h) {
            let r = self.resolve(h);
            if let Some(other) = r.clients.first(QueryView::ActiveAt(c.config.pos)) {
                r.lemma_deactivate_frame(other);
                self.clients.lemma_set_active_count(other, false);
                self.clients.set_active(other, false).lemma_set_active_count(h, true);
            }
            self.clients.lemma_set_active_count(h, true);
            let cleared = r.clear_edge(h, c.config.pos);
            if !(cleared.clients.get(h) matches Some(d) && !d.state.active) {
                cleared.clients.lemma_set_active_same(h, true);
            }
        }
    }

    /// Making a client active keeps the handles in order.
    proof fn lemma_activated_wf(self, h: ClientHandle)
        requires
            self.clients.wf(),
        ensures
            self.activated(h).wf(),
    {
        if let Some(c) = self.clients.get(h) {
            self.clients.lemma_set_active_wf(h, true);
            if let Some(other) = self.clients.first(QueryView::ActiveAt(c.config.pos)) {
                self.clients.lemma_set_active_wf(other, false);
                self.clients.set_active(other, false).lemma_set_active_wf(h, true);
            }
        }
    }

    /// Removing clients leaves no more of them, and the other state.
    proof fn lemma_remove_clients_frame(self, handles: Seq<ClientHandle>)
        ensures
            ({
                let v = self.remove_clients(handles);
                &&& v == ServiceView { clients: v.clients, actions: v.actions, ..self }
                &&& self.clients.wf() ==> v.clients.wf()
                &&& v.clients.count() <= self.clients.count()
            }),
        decreases handles.len(),
    {
        reveal(ServiceView::remove_client);
        if handles.len() > 0 {
            self.lemma_remove_clients_frame(handles.drop_last());
            self.remove_clients(handles.drop_last()).clients.lemma_remove_count(handles.last());
            if self.clients.wf() {
                self.remove_clients(handles.drop_last()).clients.lemma_remove(handles.last());
            }
        }
    }

    /// Removing clients leaves no slot in use that was not, and none of theirs.
    proof fn lemma_removed_slots(self, handles: Seq<ClientHandle>)
        ensures
            ({
                let v = self.remove_clients(handles);
                &&& v.clients.slots.len() == self.clients.slots.len()
                &&& forall|i: int|
                    0 <= i < v.clients.slots.len() && (#[trigger] v.clients.slots[i]) is Some
                        ==> self.clients.slots[i] is Some && forall|k: int|
                        0 <= k < handles.len() ==> slot(#[trigger] handles[k]) != i
            }),
        decreases handles.len(),
    {
        reveal(ServiceView::remove_client);
        if handles.len() > 0 {
            let init = handles.drop_last();
            self.lemma_removed_slots(init);
            let u = self.remove_clients(init);
            let v = self.remove_clients(handles);
            assert forall|i: int|
                0 <= i < v.clients.slots.len() && (#[trigger] v.clients.slots[i]) is Some implies
                self.clients.slots[i] is Some && forall|k: int|
                0 <= k < handles.len() ==> slot(#[trigger] handles[k]) != i by {
                assert(u.clients.slots[i] is Some);
                assert forall|k: int| 0 <= k < handles.len() implies slot(#[trigger] handles[k])
                    != i by {
                    if k < init.len() {
                        assert(init[k] == handles[k]);
                    }
                }
            }
        }
    }

    /// Removing all clients leaves none.
    proof fn lemma_remove_all_clients(self)
        requires
            self.clients.slots.len() <= usize::MAX,
        ensures
            self.remove_clients(self.clients.handles()).clients.count() == 0,
    {
        let handles = self.clients.handles();
        let v = self.remove_clients(handles);
        let slots = v.clients.slots;
        self.lemma_removed_slots(handles);
        crate::client::lemma_used_keys(self.clients.slots);
        let keys = crate::client::used_keys(self.clients.slots);
        assert forall|i: int| 0 <= i < slots.len() implies (#[trigger] slots[i]) is None by {
            if slots[i] is Some {
                assert(self.clients.slots[i] is Some);
                let k = choose|k: int| 0 <= k < keys.len() && keys[k] == i as usize;
                assert(slot(handles[k]) == i);
            }
        }
        crate::client::lemma_used_none(slots);
    }

    /// Loading clients adds no more than there are and leaves the other
    /// state.
    proof fn lemma_load_clients_frame(self, clients: Seq<ConfigClientView>)
        requires
            self.clients.wf(),
            self.clients.room(clients.len()),
        ensures
            ({
                let v = self.load_clients(clients);
                &&& v == ServiceView { clients: v.clients, actions: v.actions, ..self }
                &&& v.clients.wf()
                &&& v.clients.count() <= self.clients.count() + clients.len()
            }),
        decreases clients.len(),
    {
        if clients.len() > 0 {
            self.lemma_load_clients_frame(clients.drop_last());
            let v = self.load_clients(clients.drop_last());
            let c = clients.last();
            let h = v.clients.next_handle();
            v.clients.lemma_insert(configured_client(c));
            let loaded = v.with_clients(v.clients.insert(configured_client(c)));
            loaded.clients.lemma_set_active_wf(h, false);
            loaded.clients.lemma_set_active_count(h, false);
            let inactive = loaded.with_clients(loaded.clients.set_active(h, false));
            inactive.lemma_activate_frame(h);
            inactive.lemma_activated_wf(h);
        }
    }

    /// Changing the role leaves the clients and the settings.
    proof fn lemma_mode_frame(self, mode: OperationMode)
        ensures
            ({
                let v = self.apply_operation_mode(mode);
                v == ServiceView { mode, incoming: v.incoming, actions: v.actions, ..self }
            }),
    {
        reveal(ServiceView::apply_operation_mode);
        let v = ServiceView { mode, ..self };
        let addrs = v.incoming.map_values(|i: IncomingView| i.addr);
        v.lemma_drop_incoming_keeps(addrs);
        v.drop_incoming(addrs).emit(ActionView::SetServer(None)).emit(
            ActionView::EmulationSetEnabled(false),
        ).emit(
            ActionView::StartListening { port: v.port, audio: v.audio },
        ).lemma_create_captures_frame(v.clients.active_handles());
        v.emit(ActionView::StopListening).lemma_destroy_captures_frame(v.clients.active_handles());
    }

    /// Putting up barriers changes nothing that the service knows.
    proof fn lemma_create_captures_frame(self, handles: Seq<ClientHandle>)
        ensures
            ({
                let v = self.create_captures(handles);
                v == ServiceView { actions: v.actions, ..self }
            }),
        decreases handles.len(),
    {
        if handles.len() > 0 {
            self.lemma_create_captures_frame(handles.drop_last());
        }
    }

    /// Taking down barriers changes nothing that the service knows.
    proof fn lemma_destroy_captures_frame(self, handles: Seq<ClientHandle>)
        ensures
            ({
                let v = self.destroy_captures(handles);
                v == ServiceView { actions: v.actions, ..self }
            }),
        decreases handles.len(),
    {
        if handles.len() > 0 {
            self.lemma_destroy_captures_frame(handles.drop_last());
        }
    }
}

/// The role of a configuration file that may not name one: a file with
/// clients is a server's, one that says where the server is a client's.
pub fn effective_mode(
    configured: Option<OperationMode>,
    clients: usize,
    endpoint: &ServerEndpoint,
) -> (m: OperationMode)
    ensures
        m == effective(configured, clients as nat, endpoint@),
{
    match configured {
        Some(m) => m,
        None => {
            if clients > 0 {
                OperationMode::Server
            } else if endpoint.hostname.is_some() || endpoint.ips.len() > 0 {
                OperationMode::Client
            } else {
                OperationMode::Unconfigured
            }
        },
    }
}

/// What runs from the start, without waiting for a frontend.
#[derive(Clone, Copy, Debug, PartialEq, Eq, Structural)]
pub struct StartPlan {
    /// devices are accepted
    pub listen: bool,
    /// input is captured
    pub capture: bool,
    /// input is emulated
    pub emulate: bool,
}

/// What runs from the start in a role: a server accepts devices and captures,
/// a client emulates, and a machine without a role does nothing, so that the
/// system asks for no permission that is not needed.
pub fn start_plan(mode: OperationMode) -> (p: StartPlan)
    ensures
        p.listen == (mode == OperationMode::Server),
        p.capture == (mode == OperationMode::Server),
        p.emulate == (mode == OperationMode::Client),
{
    StartPlan {
        listen: mode == OperationMode::Server,
        capture: mode == OperationMode::Server,
        emulate: mode == OperationMode::Client,
    }
}

/// A manager with the clients of a configuration file.
pub open spec fn configured_manager(clients: Seq<ConfigClientView>) -> ManagerView
    decreases clients.len(),
{
    if clients.len() == 0 {
        ManagerView::empty()
    } else {
        configured_manager(clients.drop_last()).insert(configured_client(clients.last()))
    }
}

/// A configuration's clients stand in as many slots, none of which is free.
proof fn lemma_configured_manager(clients: Seq<ConfigClientView>)
    ensures
        configured_manager(clients).slots.len() == clients.len(),
        configured_manager(clients).count() == clients.len(),
        configured_manager(clients).free.len() == 0,
        configured_manager(clients).slots =~= clients.map_values(
            |c: ConfigClientView| Some(configured_client(c)),
        ),
    decreases clients.len(),
{
    if clients.len() > 0 {
        lemma_configured_manager(clients.drop_last());
        assert(configured_manager(clients).slots.drop_last() =~= configured_manager(
            clients.drop_last(),
        ).slots);
    }
}

impl Service {
    /// The service with what the configuration file keeps.
    pub fn new(config: SavedConfig, port: u16, fingerprint: String) -> (s: Service)
        requires
            config.clients@.len() <= crate::client::MAX_CLIENTS,
        ensures
            s@ == (ServiceView {
                mode: config@.role(),
                configured: config@.mode,
                port,
                audio: config@.audio,
                endpoint: config@.endpoint,
                keys: config@.keys,
                clients: configured_manager(config@.clients),
                fingerprint: fingerprint@,
                capture_status: Status::Disabled,
                emulation_status: Status::Disabled,
                incoming: seq![],
                server_dns_ips: seq![],
                next_trigger: 0,
                actions: seq![],
            }),
    {
        let mut clients = ClientManager::default();
        let ghost all = config@.clients;
        let mut i: usize = 0;
        assert(all.take(0) =~= seq![]);
        while i < config.clients.len()
            invariant
                i <= config.clients@.len(),
                config.clients@.len() <= crate::client::MAX_CLIENTS,
                all == config_views(config.clients@),
                clients@ == configured_manager(all.take(i as int)),
            decreases config.clients@.len() - i,
        {
            proof {
                lemma_configured_manager(all.take(i as int));
                assert(all.take(i + 1).drop_last() =~= all.take(i as int));
            }
            let _ = clients.add_with_config(config.clients[i].clone());
            i = i + 1;
        }
        assert(all.take(i as int) =~= all);
        let s = Service {
            mode: effective_mode(config.mode, config.clients.len(), &config.endpoint),
            configured: config.mode,
            port,
            audio: config.audio,
            endpoint: config.endpoint,
            keys: config.keys,
            clients,
            fingerprint,
            capture_status: Status::Disabled,
            emulation_status: Status::Disabled,
            incoming: Vec::new(),
            server_dns_ips: Vec::new(),
            next_trigger: 0,
            actions: Vec::new(),
        };
        assert(s@.incoming =~= seq![]);
        assert(s@.server_dns_ips =~= seq![]);
        assert(s@.actions =~= seq![]);
        s
    }

    /// Puts up the barriers of the clients that the configuration file calls
    /// active, and has a client's server resolved. A client that is active
    /// already gets no barrier, hence all are noted as inactive first.
    pub fn startup(&mut self)
        ensures
            final(self)@ == old(self)@.startup(),
    {
        let active = self.clients.active_clients();
        let mut i: usize = 0;
        assert(active@.take(0) =~= seq![]);
        while i < active.len()
            invariant
                i <= active@.len(),
                self@ == old(self)@.forget_active(active@.take(i as int)),
            decreases active@.len() - i,
        {
            assert(active@.take(i + 1).drop_last() =~= active@.take(i as int));
            let _ = self.clients.deactivate_client(active[i]);
            i = i + 1;
        }
        assert(active@.take(i as int) =~= active@);
        let ghost mid = self@;
        let mut k: usize = 0;
        assert(active@.take(0) =~= seq![]);
        while k < active.len()
            invariant
                k <= active@.len(),
                self@ == mid.activate_clients(active@.take(k as int)),
            decreases active@.len() - k,
        {
            assert(active@.take(k + 1).drop_last() =~= active@.take(k as int));
            self.activate_client(active[k]);
            k = k + 1;
        }
        assert(active@.take(k as int) =~= active@);
        if self.mode == OperationMode::Client {
            self.resolve_server();
        }
    }

    /// Removes all clients.
    fn remove_all_clients(&mut self)
        ensures
            final(self)@ == old(self)@.remove_clients(old(self)@.clients.handles()),
            final(self)@.clients.count() == 0,
    {
        let handles = self.clients.registered_clients();
        proof {
            self@.lemma_remove_all_clients();
        }
        let mut i: usize = 0;
        assert(handles@.take(0) =~= seq![]);
        while i < handles.len()
            invariant
                i <= handles@.len(),
                self@ == old(self)@.remove_clients(handles@.take(i as int)),
            decreases handles@.len() - i,
        {
            assert(handles@.take(i + 1).drop_last() =~= handles@.take(i as int));
            self.remove_client(handles[i]);
            i = i + 1;
        }
        assert(handles@.take(i as int) =~= handles@);
    }

    /// Adds a client of the configuration file.
    fn load_client(&mut self, c: ConfigClient)
        requires
            old(self)@.clients.room(1),
        ensures
            final(self)@ == old(self)@.load_client(c@),
            final(self)@.clients.count() <= old(self)@.clients.count() + 1,
    {
        let active: bool = c.active;
        let handle = self.clients.add_with_config(c);
        let created = self.clients.get_state(handle);
        if active {
            proof {
                self@.clients.lemma_set_active_count(handle, false);
            }
            let _ = self.clients.deactivate_client(handle);
            proof {
                self@.lemma_activate_frame(handle);
            }
            self.activate_client(handle);
        }
        if let Some((config, state)) = created {
            self.notify_frontend(FrontendEvent::Created(handle, config, state));
        }
    }

    /// Takes over a configuration file that changed.
    pub fn handle_config_change(&mut self, new: SavedConfig, release_bind: Vec<u32>)
        requires
            new.clients@.len() <= crate::client::MAX_CLIENTS,
        ensures
            final(self)@ == old(self)@.config_change(new@, release_bind@),
    {
        let mode = effective_mode(new.mode, new.clients.len(), &new.endpoint);
        self.configured = new.mode;
        self.audio = new.audio;
        self.endpoint = new.endpoint;
        let ghost read = self@;
        if mode != self.mode {
            proof {
                read.lemma_mode_frame(mode);
            }
            self.apply_operation_mode(mode);
            self.notify_frontend(FrontendEvent::OperationMode(mode));
        }
        let ghost switched = self@;
        self.remove_all_clients();
        let ghost cleared = self@;
        proof {
            switched.lemma_remove_clients_frame(switched.clients.handles());
        }
        let ghost all = config_views(new.clients@);
        let mut i: usize = 0;
        assert(all.take(0) =~= seq![]);
        while i < new.clients.len()
            invariant
                i <= new.clients@.len(),
                all == config_views(new.clients@),
                new.clients@.len() <= crate::client::MAX_CLIENTS,
                cleared.clients.count() == 0,
                self@ == cleared.load_clients(all.take(i as int)),
                self@.clients.count() <= cleared.clients.count() + i,
            decreases new.clients@.len() - i,
        {
            assert(all.take(i + 1).drop_last() =~= all.take(i as int));
            self.load_client(new.clients[i].clone());
            i = i + 1;
        }
        assert(all.take(i as int) =~= all);
        self.emit(Action::SetReleaseBind(release_bind));
        self.keys = new.keys;
        if self.mode == OperationMode::Client {
            self.server_dns_ips = Vec::new();
            assert(self@.server_dns_ips =~= seq![]);
            self.resolve_server();
            self.push_server_target();
        }
        self.sync_frontend();
    }
}

} // verus!
