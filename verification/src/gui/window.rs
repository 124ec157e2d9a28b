//! The window: what it shows after every event and what its controls ask
//! for.
//!
//! A handler changes the state and appends to a list of [`AppAction`]s, which
//! the surrounding program takes out and carries out in order.

use super::audio_page::{selected_audio_device, selected_bitrate, AUDIO_BITRATES};
use super::forms::{parse_port, port_entry_text, port_of, port_text};
use super::logs::{description, LogCategory, LogState, LogView};
use super::rows::{
    same_text_addr, written_same, AudioStreamRowInput, AudioStreamRowModel, ClientRowInput,
    ClientRowModel, ClientRowView, IncomingDeviceRowModel, IncomingRowView, KeyRowModel,
};
use crate::ipc::{
    position_text, AudioDeviceInfo, ClientConfig, ClientEntryView, ClientHandle, ClientState,
    ConfigView, FrontendEvent, FrontendRequest, FrontendRequestView, Position,
    StateView, Status, DEFAULT_PORT,
};
use crate::net::{addr_string, addr_text, AddrMap, SocketAddr};
use crate::text::{concat2, concat3, opt_view};
use vstd::prelude::*;
use vstd::string::StrSliceExecFns;

pub mod controls;
pub mod events;
pub mod laws;

verus! {

/// A page of the window.
#[derive(Clone, Copy, Debug, PartialEq, Eq, Structural)]
pub enum Page {
    Screens,
    Audio,
    Logs,
    Settings,
}

/// The title of a page.
pub open spec fn page_title(p: Page) -> Seq<char> {
    match p {
        Page::Screens => "Screens"@,
        Page::Audio => "Audio"@,
        Page::Logs => "Logs"@,
        Page::Settings => "Settings"@,
    }
}

/// The name under which a page is found.
pub open spec fn page_name(p: Page) -> Seq<char> {
    match p {
        Page::Screens => "screens"@,
        Page::Audio => "audio"@,
        Page::Logs => "logs"@,
        Page::Settings => "settings"@,
    }
}

impl Page {
    /// The title of the page.
    pub fn title(self) -> (s: &'static str)
        ensures
            s@ == page_title(self),
    {
        match self {
            Page::Screens => "Screens",
            Page::Audio => "Audio",
            Page::Logs => "Logs",
            Page::Settings => "Settings",
        }
    }

    /// The name under which the page is found.
    pub fn name(self) -> (s: &'static str)
        ensures
            s@ == page_name(self),
    {
        match self {
            Page::Screens => "screens",
            Page::Audio => "audio",
            Page::Logs => "logs",
            Page::Settings => "settings",
        }
    }

    /// The page at a place of the navigation list.
    pub fn from_nav_index(index: i32) -> (p: Page)
        ensures
            p == if index == 0 {
                Page::Screens
            } else if index == 1 {
                Page::Audio
            } else if index == 2 {
                Page::Logs
            } else {
                Page::Settings
            },
    {
        match index {
            0 => Page::Screens,
            1 => Page::Audio,
            2 => Page::Logs,
            _ => Page::Settings,
        }
    }
}

/// What a control of a client's row asks for. The number is the row's current
/// place in the list.
#[derive(Debug)]
pub enum ClientRowOutput {
    Activate(usize, bool),
    Delete(usize),
    RequestDns(usize),
    HostnameChange(usize, String),
    PortChange(usize, u16),
    PositionChange(usize, Position),
}

/// What the window is told.
#[derive(Debug)]
pub enum AppMsg {
    NavigateTo(Page),
    AddClient,
    CopyHostname,
    CopyFingerprint,
    PortEntryChanged(String),
    PortEditApply,
    PortEditCancel,
    ScreenPositionChanged(ClientHandle, String),
    OpenFingerprintDialog(Option<String>),
    /// the capture row's button; tells whether the system has a permission
    /// for capturing, and whether that is granted
    ToggleCapture { needs_permission: bool, granted: bool },
    ToggleEmulation,
    AudioSendToggled(bool),
    AudioReceiveToggled(bool),
    AudioCaptureDeviceChanged(u32),
    AudioPlaybackDeviceChanged(u32),
    AudioBitrateChanged(u32),
    AudioBufferChanged(u32),
    LogFilterChanged(Option<LogCategory>),
    LogCopy,
    LogClear,
    ClientRow(ClientRowOutput),
    /// the button of a row in the list of authorized devices
    DeleteKey(usize),
    AuthorizationConfirmed(String),
    AuthorizationCancelled,
    FingerprintConfirmed(String, String),
    PermissionGranted,
    PermissionRevoked,
}

/// Work for the surrounding program.
#[derive(Debug)]
pub enum AppAction {
    /// ask the service
    Request(FrontendRequest),
    /// show a message for a while
    Toast(String),
    /// put a text into the port entry
    SetPortEntry(String),
    /// put a text on the clipboard
    Clipboard(String),
    /// open the dialog that asks whether a device is authorized
    OpenAuthorization(String),
    /// open the dialog that takes a fingerprint
    OpenFingerprint(Option<String>),
    /// close the dialog that asks whether a device is authorized
    CloseAuthorization,
    /// close the dialog that takes a fingerprint
    CloseFingerprint,
    /// let the user grant the permission
    OpenPermissionSettings,
    /// start the program anew
    Relaunch,
    /// end the program
    Quit,
}

/// Work for the surrounding program, as a value.
pub enum AppActionView {
    Request(FrontendRequestView),
    Toast(Seq<char>),
    SetPortEntry(Seq<char>),
    Clipboard(Seq<char>),
    OpenAuthorization(Seq<char>),
    OpenFingerprint(Option<Seq<char>>),
    CloseAuthorization,
    CloseFingerprint,
    OpenPermissionSettings,
    Relaunch,
    Quit,
}

impl View for AppAction {
    type V = AppActionView;

    open spec fn view(&self) -> AppActionView {
        match self {
            AppAction::Request(r) => AppActionView::Request(r@),
            AppAction::Toast(s) => AppActionView::Toast(s@),
            AppAction::SetPortEntry(s) => AppActionView::SetPortEntry(s@),
            AppAction::Clipboard(s) => AppActionView::Clipboard(s@),
            AppAction::OpenAuthorization(f) => AppActionView::OpenAuthorization(f@),
            AppAction::OpenFingerprint(f) => AppActionView::OpenFingerprint(opt_view(*f)),
            AppAction::CloseAuthorization => AppActionView::CloseAuthorization,
            AppAction::CloseFingerprint => AppActionView::CloseFingerprint,
            AppAction::OpenPermissionSettings => AppActionView::OpenPermissionSettings,
            AppAction::Relaunch => AppActionView::Relaunch,
            AppAction::Quit => AppActionView::Quit,
        }
    }
}

/// The actions of a list, as values.
pub open spec fn app_actions(actions: Seq<AppAction>) -> Seq<AppActionView> {
    actions.map_values(|a: AppAction| a@)
}

/// What the window shows.
pub struct WindowView {
    pub page: Page,
    pub hostname: Seq<char>,
    pub port: u16,
    /// what stands in the port entry
    pub port_draft: Seq<char>,
    /// the port entry holds something that was not applied
    pub port_editing: bool,
    pub pk_fingerprint: Seq<char>,
    pub capture_active: bool,
    pub emulation_active: bool,
    pub clients: Seq<ClientRowView>,
    /// description and fingerprint of the authorized devices
    pub authorized: Seq<(Seq<char>, Seq<char>)>,
    pub incoming: Seq<IncomingRowView>,
    /// the row of each device that entered
    pub incoming_by_addr: Map<SocketAddr, u64>,
    pub streams: Seq<AudioStreamRowModel>,
    /// the row of each audio stream
    pub streams_by_addr: Map<SocketAddr, u64>,
    /// the number of the next row
    pub next_row: u64,
    pub audio_send: bool,
    pub audio_receive: bool,
    pub audio_bitrate: u32,
    pub audio_buffer_ms: u32,
    pub audio_loopback_supported: bool,
    pub capture_devices: Seq<crate::ipc::DeviceView>,
    pub playback_devices: Seq<crate::ipc::DeviceView>,
    pub log: LogView,
    pub authorization_open: bool,
    pub fingerprint_open: bool,
    /// what is to be done
    pub actions: Seq<AppActionView>,
}

/// The place of a client's row.
pub open spec fn row_of_handle(rows: Seq<ClientRowView>, h: ClientHandle) -> Option<int>
    decreases rows.len(),
{
    if rows.len() == 0 {
        None
    } else {
        match row_of_handle(rows.drop_last(), h) {
            Some(i) => Some(i),
            None => if rows.last().handle == h {
                Some(rows.len() - 1)
            } else {
                None
            },
        }
    }
}

/// The place of the first client that is connected from an address.
pub open spec fn row_of_addr(rows: Seq<ClientRowView>, addr: SocketAddr) -> Option<int>
    decreases rows.len(),
{
    if rows.len() == 0 {
        None
    } else {
        match row_of_addr(rows.drop_last(), addr) {
            Some(i) => Some(i),
            None => match rows.last().active_addr {
                Some(a) if written_same(a, addr) => Some(rows.len() - 1),
                _ => None,
            },
        }
    }
}

/// The place of a row by its number.
pub open spec fn incoming_row(rows: Seq<IncomingRowView>, id: u64) -> Option<int>
    decreases rows.len(),
{
    if rows.len() == 0 {
        None
    } else {
        match incoming_row(rows.drop_last(), id) {
            Some(i) => Some(i),
            None => if rows.last().id == id {
                Some(rows.len() - 1)
            } else {
                None
            },
        }
    }
}

/// The place of a row by its number.
pub open spec fn stream_row(rows: Seq<AudioStreamRowModel>, id: u64) -> Option<int>
    decreases rows.len(),
{
    if rows.len() == 0 {
        None
    } else {
        match stream_row(rows.drop_last(), id) {
            Some(i) => Some(i),
            None => if rows.last().id == id {
                Some(rows.len() - 1)
            } else {
                None
            },
        }
    }
}

/// The line of an audio error.
pub open spec fn audio_error_toast(
    addr: Option<SocketAddr>,
    v6: Seq<char>,
    message: Seq<char>,
) -> Seq<char> {
    match addr {
        Some(a) => "audio error ("@ + addr_text(a, v6) + "): "@ + message,
        None => "audio error: "@ + message,
    }
}

impl WindowView {
    /// The window before anything happened. It asks for the audio devices.
    pub open spec fn init(hostname: Seq<char>) -> WindowView {
        WindowView {
            page: Page::Screens,
            hostname,
            port: DEFAULT_PORT,
            port_draft: seq![],
            port_editing: false,
            pk_fingerprint: seq![],
            capture_active: false,
            emulation_active: false,
            clients: seq![],
            authorized: seq![],
            incoming: seq![],
            incoming_by_addr: Map::empty(),
            streams: seq![],
            streams_by_addr: Map::empty(),
            next_row: 0,
            audio_send: false,
            audio_receive: false,
            audio_bitrate: 96_000,
            audio_buffer_ms: 80,
            audio_loopback_supported: true,
            capture_devices: seq![],
            playback_devices: seq![],
            log: LogView { entries: seq![], filter: None },
            authorization_open: false,
            fingerprint_open: false,
            actions: seq![AppActionView::Request(FrontendRequestView::EnumerateAudioDevices)],
        }
    }

    /// With one more thing to do.
    pub open spec fn emit(self, a: AppActionView) -> WindowView {
        WindowView { actions: self.actions.push(a), ..self }
    }

    /// With one more thing to ask of the service.
    pub open spec fn request(self, r: FrontendRequestView) -> WindowView {
        self.emit(AppActionView::Request(r))
    }

    /// With other rows of clients.
    pub open spec fn with_clients(self, clients: Seq<ClientRowView>) -> WindowView {
        WindowView { clients, ..self }
    }

    /// A client's row takes over a configuration and a state, if it is there.
    #[verifier::opaque]
    pub open spec fn update_client(
        self,
        h: ClientHandle,
        config: ConfigView,
        state: StateView,
    ) -> WindowView {
        match row_of_handle(self.clients, h) {
            Some(i) => self.with_clients(
                self.clients.update(i, self.clients[i].set_config(config).set_state(state)),
            ),
            None => self,
        }
    }

    /// A client's row takes over a configuration and a state, and is added if
    /// it is not there.
    #[verifier::opaque]
    pub open spec fn upsert_client(
        self,
        h: ClientHandle,
        config: ConfigView,
        state: StateView,
    ) -> WindowView {
        match row_of_handle(self.clients, h) {
            Some(i) => self.update_client(h, config, state),
            None => self.with_clients(self.clients.push(ClientRowView::init(h, config, state))),
        }
    }

    /// Several clients' rows are brought up to date.
    pub open spec fn upsert_clients(self, clients: Seq<ClientEntryView>) -> WindowView
        decreases clients.len(),
    {
        if clients.len() == 0 {
            self
        } else {
            let c = clients.last();
            self.upsert_clients(clients.drop_last()).upsert_client(c.0, c.1, c.2)
        }
    }

    /// The port entry shows the port.
    #[verifier::opaque]
    pub open spec fn reset_port_entry(self) -> WindowView {
        WindowView { port_editing: false, ..self }.emit(
            AppActionView::SetPortEntry(port_text(self.port)),
        )
    }

    /// A dialog that is open is closed before another takes its place.
    #[verifier::opaque]
    pub open spec fn open_authorization(self, f: Seq<char>) -> WindowView {
        WindowView { authorization_open: true, ..self.close_authorization() }.emit(
            AppActionView::OpenAuthorization(f),
        )
    }

    /// The dialog is closed, if it is open.
    #[verifier::opaque]
    pub open spec fn close_authorization(self) -> WindowView {
        if self.authorization_open {
            WindowView { authorization_open: false, ..self }.emit(AppActionView::CloseAuthorization)
        } else {
            self
        }
    }

    /// A dialog that is open is closed before another takes its place.
    #[verifier::opaque]
    pub open spec fn open_fingerprint(self, f: Option<Seq<char>>) -> WindowView {
        WindowView { fingerprint_open: true, ..self.close_fingerprint() }.emit(
            AppActionView::OpenFingerprint(f),
        )
    }

    /// The dialog is closed, if it is open.
    #[verifier::opaque]
    pub open spec fn close_fingerprint(self) -> WindowView {
        if self.fingerprint_open {
            WindowView { fingerprint_open: false, ..self }.emit(AppActionView::CloseFingerprint)
        } else {
            self
        }
    }

    /// A device entered: it gets a row.
    #[verifier::opaque]
    pub open spec fn device_entered(
        self,
        addr: SocketAddr,
        pos: Position,
        fingerprint: Seq<char>,
    ) -> WindowView {
        let id = self.next_row;
        WindowView {
            incoming: self.incoming.push(
                IncomingRowView { id, addr, position: Some(pos), fingerprint },
            ),
            incoming_by_addr: self.incoming_by_addr.insert(addr, id),
            next_row: (id + 1) as u64,
            ..self
        }
    }

    /// A device is gone, and its row with it.
    #[verifier::opaque]
    pub open spec fn device_gone(self, addr: SocketAddr) -> WindowView {
        if self.incoming_by_addr.contains_key(addr) {
            let forgotten = WindowView {
                incoming_by_addr: self.incoming_by_addr.remove(addr),
                ..self
            };
            match incoming_row(self.incoming, self.incoming_by_addr[addr]) {
                Some(i) => WindowView { incoming: self.incoming.remove(i), ..forgotten },
                None => forgotten,
            }
        } else {
            self
        }
    }

    /// The client that an audio stream comes from shows how it stands.
    #[verifier::opaque]
    pub open spec fn client_audio(self, addr: SocketAddr, active: bool, latency_ms: u32) -> WindowView {
        match row_of_addr(self.clients, addr) {
            Some(i) => self.with_clients(
                self.clients.update(
                    i,
                    ClientRowView {
                        audio_active: active,
                        audio_latency_ms: if active {
                            Some(latency_ms)
                        } else {
                            None
                        },
                        ..self.clients[i]
                    },
                ),
            ),
            None => self,
        }
    }

    /// An audio stream's row is added, brought up to date, or removed.
    #[verifier::opaque]
    pub open spec fn audio_stream(
        self,
        addr: SocketAddr,
        active: bool,
        latency_ms: u32,
        packets_lost: u64,
        level: u32,
    ) -> WindowView {
        let known = self.streams_by_addr.contains_key(addr);
        let row = stream_row(self.streams, self.streams_by_addr[addr]);
        if active && known {
            match row {
                Some(i) => WindowView {
                    streams: self.streams.update(
                        i,
                        AudioStreamRowModel { latency_ms, packets_lost, level, ..self.streams[i] },
                    ),
                    ..self
                },
                None => self,
            }
        } else if active {
            let id = self.next_row;
            WindowView {
                streams: self.streams.push(
                    AudioStreamRowModel { id, addr, latency_ms, packets_lost, level },
                ),
                streams_by_addr: self.streams_by_addr.insert(addr, id),
                next_row: (id + 1) as u64,
                ..self
            }
        } else if known {
            let forgotten = WindowView {
                streams_by_addr: self.streams_by_addr.remove(addr),
                ..self
            };
            match row {
                Some(i) => WindowView { streams: self.streams.remove(i), ..forgotten },
                None => forgotten,
            }
        } else {
            self
        }
    }

    /// An event of the service takes a number for a new row.
    pub open spec fn takes_row(self, e: FrontendEvent) -> bool {
        match e {
            FrontendEvent::DeviceEntered { .. } => true,
            FrontendEvent::AudioStream { addr, active, .. } => active
                && !self.streams_by_addr.contains_key(addr),
            _ => false,
        }
    }

    /// What an event of the service changes. `v6` is how the event's address
    /// is written, where it is a V6 one. The role, the result of a
    /// connection test and the server have no place in this window.
    pub open spec fn event(self, e: FrontendEvent, v6: Seq<char>) -> WindowView {
        match e {
            FrontendEvent::Created(h, c, s) => self.upsert_client(h, c@, s@),
            FrontendEvent::NoSuchClient(_) => self,
            FrontendEvent::State(h, c, s) => self.update_client(h, c@, s@),
            FrontendEvent::Deleted(h) => match row_of_handle(self.clients, h) {
                Some(i) => self.with_clients(self.clients.remove(i)),
                None => self,
            },
            FrontendEvent::PortChanged(port, msg) => {
                let shown = WindowView { port, ..self }.reset_port_entry();
                match msg {
                    Some(m) => shown.emit(AppActionView::Toast(m@)),
                    None => shown,
                }
            },
            FrontendEvent::Enumerate(clients) => self.upsert_clients(
                crate::ipc::entry_views(clients@),
            ),
            FrontendEvent::Error(e) => self.emit(AppActionView::Toast(e@)),
            FrontendEvent::CaptureStatus(s) => WindowView {
                capture_active: s == Status::Enabled,
                ..self
            },
            FrontendEvent::EmulationStatus(s) => WindowView {
                emulation_active: s == Status::Enabled,
                ..self
            },
            FrontendEvent::AuthorizedUpdated(keys) => WindowView {
                authorized: key_rows(keys.entries_view()),
                ..self
            },
            FrontendEvent::PublicKeyFingerprint(f) => WindowView { pk_fingerprint: f@, ..self },
            FrontendEvent::ConnectionAttempt { fingerprint } => self.open_authorization(
                fingerprint@,
            ),
            FrontendEvent::DeviceConnected { addr, .. } => self.emit(
                AppActionView::Toast("device connected: "@ + addr_text(addr, v6)),
            ),
            FrontendEvent::DeviceEntered { fingerprint, addr: a, pos } => self.device_entered(
                a,
                pos,
                fingerprint@,
            ),
            FrontendEvent::IncomingDisconnected(a) => self.device_gone(a),
            FrontendEvent::AudioStream { addr: a, active, latency_ms, packets_lost, level } =>
                self.client_audio(a, active, latency_ms).audio_stream(
                a,
                active,
                latency_ms,
                packets_lost,
                level,
            ),
            FrontendEvent::AudioStatus { send, receive, bitrate, buffer_ms, loopback_supported } =>
                WindowView {
                audio_send: send,
                audio_receive: receive,
                audio_bitrate: bitrate,
                audio_buffer_ms: buffer_ms,
                audio_loopback_supported: loopback_supported,
                ..self
            },
            FrontendEvent::AudioDevices { capture, playback } => WindowView {
                capture_devices: crate::ipc::device_views(capture@),
                playback_devices: crate::ipc::device_views(playback@),
                ..self
            },
            FrontendEvent::AudioError { addr: of, message } => self.emit(
                AppActionView::Toast(audio_error_toast(of, v6, message@)),
            ),
            FrontendEvent::OperationMode(_) => self,
            FrontendEvent::ConnectionTested { .. } => self,
            FrontendEvent::ServerEndpoint { .. } => self,
        }
    }

    /// An event of the service is logged and shown.
    pub open spec fn frontend(self, e: FrontendEvent, v6: Seq<char>, ts: Seq<char>) -> WindowView {
        let logged = match description(e@, v6) {
            Some((c, m)) => WindowView { log: self.log.append(ts, c, m), ..self },
            None => self,
        };
        logged.event(e, v6)
    }

    /// What a control of a client's row asks for. A row that is gone asks for
    /// nothing.
    #[verifier::opaque]
    pub open spec fn row_output(self, o: ClientRowOutput) -> WindowView {
        let i = match o {
            ClientRowOutput::Activate(i, _) => i,
            ClientRowOutput::Delete(i) => i,
            ClientRowOutput::RequestDns(i) => i,
            ClientRowOutput::HostnameChange(i, _) => i,
            ClientRowOutput::PortChange(i, _) => i,
            ClientRowOutput::PositionChange(i, _) => i,
        };
        if i >= self.clients.len() {
            self
        } else {
            let h = self.clients[i as int].handle;
            self.request(
                match o {
                    ClientRowOutput::Activate(_, active) => FrontendRequestView::Activate(h, active),
                    ClientRowOutput::Delete(_) => FrontendRequestView::Delete(h),
                    ClientRowOutput::RequestDns(_) => FrontendRequestView::ResolveDns(h),
                    ClientRowOutput::HostnameChange(_, n) => FrontendRequestView::UpdateHostname(
                        h,
                        if n@.len() == 0 {
                            None
                        } else {
                            Some(n@)
                        },
                    ),
                    ClientRowOutput::PortChange(_, p) => FrontendRequestView::UpdatePort(h, p),
                    ClientRowOutput::PositionChange(_, p) => FrontendRequestView::UpdatePosition(
                        h,
                        p,
                    ),
                },
            )
        }
    }

    /// A screen was moved to the edge with a name.
    pub open spec fn move_screen(self, h: ClientHandle, name: Seq<char>) -> WindowView {
        if exists|p: Position| position_text(p) == name {
            self.request(
                FrontendRequestView::UpdatePosition(
                    h,
                    choose|p: Position| position_text(p) == name,
                ),
            )
        } else {
            self
        }
    }

    /// The device selected in a picker.
    pub open spec fn picked(devices: Seq<crate::ipc::DeviceView>, selected: u32) -> Option<Seq<char>> {
        if 1 <= selected <= devices.len() {
            Some(devices[selected - 1].id)
        } else {
            None
        }
    }

    /// What the window does when it is told something.
    pub open spec fn update(self, m: AppMsg) -> WindowView {
        match m {
            AppMsg::NavigateTo(page) => WindowView { page, ..self },
            AppMsg::AddClient => self.request(FrontendRequestView::Create),
            AppMsg::CopyHostname => self.emit(AppActionView::Clipboard(self.hostname)),
            AppMsg::CopyFingerprint => self.emit(AppActionView::Clipboard(self.pk_fingerprint)),
            AppMsg::PortEntryChanged(text) => WindowView {
                port_draft: text@,
                port_editing: true,
                ..self
            },
            AppMsg::PortEditApply => self.request(
                FrontendRequestView::ChangePort(
                    match port_of(self.port_draft) {
                        Some(p) => p,
                        None => DEFAULT_PORT,
                    },
                ),
            ),
            AppMsg::PortEditCancel => self.reset_port_entry(),
            AppMsg::ScreenPositionChanged(h, name) => self.move_screen(h, name@),
            AppMsg::OpenFingerprintDialog(f) => self.open_fingerprint(opt_view(f)),
            AppMsg::ToggleCapture { needs_permission, granted } => if !needs_permission {
                self.request(FrontendRequestView::EnableCapture)
            } else if granted {
                self.emit(AppActionView::Relaunch).emit(AppActionView::Quit)
            } else {
                self.emit(AppActionView::OpenPermissionSettings)
            },
            AppMsg::ToggleEmulation => self.request(FrontendRequestView::EnableEmulation),
            AppMsg::AudioSendToggled(b) => self.request(FrontendRequestView::SetAudioSend(b)),
            AppMsg::AudioReceiveToggled(b) => self.request(FrontendRequestView::SetAudioReceive(b)),
            AppMsg::AudioCaptureDeviceChanged(i) => self.request(
                FrontendRequestView::SetAudioCaptureDevice(Self::picked(self.capture_devices, i)),
            ),
            AppMsg::AudioPlaybackDeviceChanged(i) => self.request(
                FrontendRequestView::SetAudioPlaybackDevice(Self::picked(self.playback_devices, i)),
            ),
            AppMsg::AudioBitrateChanged(i) => {
                let bitrate = if i < 5 {
                    AUDIO_BITRATES@[i as int]
                } else {
                    96_000u32
                };
                WindowView { audio_bitrate: bitrate, ..self }.request(
                    FrontendRequestView::UpdateAudioSettings {
                        bitrate,
                        buffer_ms: self.audio_buffer_ms,
                    },
                )
            },
            AppMsg::AudioBufferChanged(buffer_ms) => WindowView {
                audio_buffer_ms: buffer_ms,
                ..self
            }.request(
                FrontendRequestView::UpdateAudioSettings { bitrate: self.audio_bitrate, buffer_ms },
            ),
            AppMsg::LogFilterChanged(f) => WindowView { log: self.log.filtered(f), ..self },
            AppMsg::LogCopy => self.emit(
                AppActionView::Clipboard(
                    crate::text::joined(super::logs::visible_texts(self.log.entries), "\n"@),
                ),
            ),
            AppMsg::LogClear => WindowView {
                log: LogView { entries: seq![], ..self.log },
                ..self
            },
            AppMsg::ClientRow(o) => self.row_output(o),
            AppMsg::DeleteKey(i) => if i < self.authorized.len() {
                self.request(
                    FrontendRequestView::RemoveAuthorizedKey(self.authorized[i as int].1),
                )
            } else {
                self
            },
            AppMsg::AuthorizationConfirmed(f) => self.close_authorization().open_fingerprint(
                Some(f@),
            ),
            AppMsg::AuthorizationCancelled => self.close_authorization(),
            AppMsg::FingerprintConfirmed(desc, fp) => self.close_fingerprint().request(
                FrontendRequestView::AuthorizeKey(desc@, fp@),
            ),
            AppMsg::PermissionGranted => self,
            AppMsg::PermissionRevoked => self.emit(AppActionView::Quit),
        }
    }
}

/// The rows of the list of authorized devices: description and fingerprint.
pub open spec fn key_rows(entries: Seq<(String, String)>) -> Seq<(Seq<char>, Seq<char>)> {
    entries.map_values(|e: (String, String)| (e.1@, e.0@))
}

/// The window.
pub struct AppModel {
    page: Page,
    hostname: String,
    port: u16,
    port_draft: String,
    port_editing: bool,
    pk_fingerprint: String,
    capture_active: bool,
    emulation_active: bool,
    clients: Vec<ClientRowModel>,
    authorized: Vec<KeyRowModel>,
    incoming: Vec<IncomingDeviceRowModel>,
    incoming_by_addr: AddrMap,
    streams: Vec<AudioStreamRowModel>,
    streams_by_addr: AddrMap,
    next_row: u64,
    audio_send: bool,
    audio_receive: bool,
    audio_bitrate: u32,
    audio_buffer_ms: u32,
    audio_loopback_supported: bool,
    capture_devices: Vec<AudioDeviceInfo>,
    playback_devices: Vec<AudioDeviceInfo>,
    log: LogState,
    authorization_open: bool,
    fingerprint_open: bool,
    actions: Vec<AppAction>,
}

/// The clients' rows, as values.
pub open spec fn client_row_views(rows: Seq<ClientRowModel>) -> Seq<ClientRowView> {
    rows.map_values(|r: ClientRowModel| r@)
}

/// The rows of devices that entered, as values.
pub open spec fn incoming_row_views(rows: Seq<IncomingDeviceRowModel>) -> Seq<IncomingRowView> {
    rows.map_values(|r: IncomingDeviceRowModel| r@)
}

/// The rows of authorized devices, as values.
pub open spec fn authorized_views(rows: Seq<KeyRowModel>) -> Seq<(Seq<char>, Seq<char>)> {
    rows.map_values(|r: KeyRowModel| r@)
}

impl AppModel {
    /// What the window shows.
    #[verifier::opaque]
    closed spec fn state(&self) -> WindowView {
        WindowView {
            page: self.page,
            hostname: self.hostname@,
            port: self.port,
            port_draft: self.port_draft@,
            port_editing: self.port_editing,
            pk_fingerprint: self.pk_fingerprint@,
            capture_active: self.capture_active,
            emulation_active: self.emulation_active,
            clients: client_row_views(self.clients@),
            authorized: authorized_views(self.authorized@),
            incoming: incoming_row_views(self.incoming@),
            incoming_by_addr: self.incoming_by_addr@,
            streams: self.streams@,
            streams_by_addr: self.streams_by_addr@,
            next_row: self.next_row,
            audio_send: self.audio_send,
            audio_receive: self.audio_receive,
            audio_bitrate: self.audio_bitrate,
            audio_buffer_ms: self.audio_buffer_ms,
            audio_loopback_supported: self.audio_loopback_supported,
            capture_devices: crate::ipc::device_views(self.capture_devices@),
            playback_devices: crate::ipc::device_views(self.playback_devices@),
            log: self.log@,
            authorization_open: self.authorization_open,
            fingerprint_open: self.fingerprint_open,
            actions: app_actions(self.actions@),
        }
    }
}

impl View for AppModel {
    type V = WindowView;

    closed spec fn view(&self) -> WindowView {
        self.state()
    }
}

/// A screen in the arrangement.
#[derive(Debug)]
pub struct ScreenItem {
    pub handle: ClientHandle,
    pub hostname: Option<String>,
    pub position: Position,
    pub active: bool,
    pub audio_active: bool,
}

/// A screen in the arrangement, as a value.
pub struct ScreenItemView {
    pub handle: ClientHandle,
    pub hostname: Option<Seq<char>>,
    pub position: Position,
    pub active: bool,
    pub audio_active: bool,
}

impl View for ScreenItem {
    type V = ScreenItemView;

    open spec fn view(&self) -> ScreenItemView {
        ScreenItemView {
            handle: self.handle,
            hostname: opt_view(self.hostname),
            position: self.position,
            active: self.active,
            audio_active: self.audio_active,
        }
    }
}

/// The screens of a list, as values.
pub open spec fn screen_views(items: Seq<ScreenItem>) -> Seq<ScreenItemView> {
    items.map_values(|i: ScreenItem| i@)
}

/// The screen of a client's row.
pub open spec fn screen_of(r: ClientRowView) -> ScreenItemView {
    ScreenItemView {
        handle: r.handle,
        hostname: r.hostname,
        position: r.position,
        active: r.active,
        audio_active: r.audio_active,
    }
}

/// The line that tells whether the service runs.
pub open spec fn status_line(capture: bool, emulation: bool) -> Seq<char> {
    if capture && emulation {
        "Running"@
    } else if capture {
        "Emulation disabled"@
    } else if emulation {
        "Capture disabled"@
    } else {
        "Capture & emulation disabled"@
    }
}

impl AppModel {
    /// The window before anything happened.
    pub fn new(hostname: String) -> (m: AppModel)
        ensures
            m@ == WindowView::init(hostname@),
    {
        proof {
            reveal(AppModel::state);
        }
        let mut actions: Vec<AppAction> = Vec::new();
        actions.push(AppAction::Request(FrontendRequest::EnumerateAudioDevices));
        let m = AppModel {
            page: Page::Screens,
            hostname,
            port: DEFAULT_PORT,
            port_draft: String::new(),
            port_editing: false,
            pk_fingerprint: String::new(),
            capture_active: false,
            emulation_active: false,
            clients: Vec::new(),
            authorized: Vec::new(),
            incoming: Vec::new(),
            incoming_by_addr: AddrMap::new(),
            streams: Vec::new(),
            streams_by_addr: AddrMap::new(),
            next_row: 0,
            audio_send: false,
            audio_receive: false,
            audio_bitrate: 96_000,
            audio_buffer_ms: 80,
            audio_loopback_supported: true,
            capture_devices: Vec::new(),
            playback_devices: Vec::new(),
            log: LogState::new(),
            authorization_open: false,
            fingerprint_open: false,
            actions,
        };
        proof {
            let v = WindowView::init(hostname@);
            assert(m@.actions =~= v.actions);
            assert(m@.clients =~= v.clients);
            assert(m@.authorized =~= v.authorized);
            assert(m@.incoming =~= v.incoming);
            assert(m@.streams =~= v.streams);
            assert(m@.capture_devices =~= v.capture_devices);
            assert(m@.playback_devices =~= v.playback_devices);
            assert(m@.port_draft =~= v.port_draft);
            assert(m@.pk_fingerprint =~= v.pk_fingerprint);
        }
        m
    }

    /// Adds to what is to be done.
    fn emit(&mut self, a: AppAction)
        ensures
            final(self)@ == old(self)@.emit(a@),
    {
        proof {
            reveal(AppModel::state);
        }
        self.actions.push(a);
        assert(self@.actions =~= old(self)@.actions.push(a@));
    }

    /// Adds to what the service is asked.
    fn request(&mut self, r: FrontendRequest)
        ensures
            final(self)@ == old(self)@.request(r@),
    {
        proof {
            reveal(AppModel::state);
        }
        self.emit(AppAction::Request(r));
    }

    /// Takes out what is to be done.
    pub fn take_actions(&mut self) -> (r: Vec<AppAction>)
        ensures
            app_actions(r@) == old(self)@.actions,
            final(self)@ == (WindowView { actions: seq![], ..old(self)@ }),
    {
        proof {
            reveal(AppModel::state);
        }
        let mut r: Vec<AppAction> = Vec::new();
        core::mem::swap(&mut self.actions, &mut r);
        assert(self@.actions =~= seq![]);
        r
    }

    /// The place of a row, if there is one.
    fn client_index_for_handle(&self, key: ClientHandle) -> (r: Option<usize>)
        ensures
            match r {
                Some(i) => i < self@.clients.len() && row_of_handle(self@.clients, key) == Some(i as int),
                None => row_of_handle(self@.clients, key) is None,
            },
    {
        proof {
            reveal(AppModel::state);
        }
        let mut r: Option<usize> = None;
        let mut i: usize = 0;
        let ghost all = client_row_views(self.clients@);
        while i < self.clients.len()
            invariant
                i <= self.clients@.len(),
                all == client_row_views(self.clients@),
                match r {
                    Some(k) => k < i && row_of_handle(all.take(i as int), key) == Some(k as int),
                    None => row_of_handle(all.take(i as int), key) is None,
                },
            decreases self.clients@.len() - i,
        {
            assert(all.take(i + 1).drop_last() =~= all.take(i as int));
            if r.is_none() && self.clients[i].handle() == key {
                r = Some(i);
            }
            i = i + 1;
        }
        assert(all.take(i as int) =~= all);
        r
    }

    /// The place of a row, if there is one.
    fn client_index_for_addr(&self, key: SocketAddr) -> (r: Option<usize>)
        ensures
            match r {
                Some(i) => i < self@.clients.len() && row_of_addr(self@.clients, key) == Some(i as int),
                None => row_of_addr(self@.clients, key) is None,
            },
    {
        proof {
            reveal(AppModel::state);
        }
        let mut r: Option<usize> = None;
        let mut i: usize = 0;
        let ghost all = client_row_views(self.clients@);
        while i < self.clients.len()
            invariant
                i <= self.clients@.len(),
                all == client_row_views(self.clients@),
                match r {
                    Some(k) => k < i && row_of_addr(all.take(i as int), key) == Some(k as int),
                    None => row_of_addr(all.take(i as int), key) is None,
                },
            decreases self.clients@.len() - i,
        {
            assert(all.take(i + 1).drop_last() =~= all.take(i as int));
            if r.is_none() && match self.clients[i].active_addr() { Some(a) => same_text_addr(a, key), None => false } {
                r = Some(i);
            }
            i = i + 1;
        }
        assert(all.take(i as int) =~= all);
        r
    }

    /// The place of a row, if there is one.
    fn incoming_index(&self, key: u64) -> (r: Option<usize>)
        ensures
            match r {
                Some(i) => i < self@.incoming.len() && incoming_row(self@.incoming, key) == Some(i as int),
                None => incoming_row(self@.incoming, key) is None,
            },
    {
        proof {
            reveal(AppModel::state);
        }
        let mut r: Option<usize> = None;
        let mut i: usize = 0;
        let ghost all = incoming_row_views(self.incoming@);
        while i < self.incoming.len()
            invariant
                i <= self.incoming@.len(),
                all == incoming_row_views(self.incoming@),
                match r {
                    Some(k) => k < i && incoming_row(all.take(i as int), key) == Some(k as int),
                    None => incoming_row(all.take(i as int), key) is None,
                },
            decreases self.incoming@.len() - i,
        {
            assert(all.take(i + 1).drop_last() =~= all.take(i as int));
            if r.is_none() && self.incoming[i].id() == key {
                r = Some(i);
            }
            i = i + 1;
        }
        assert(all.take(i as int) =~= all);
        r
    }

    /// The place of a row, if there is one.
    fn stream_index(&self, key: u64) -> (r: Option<usize>)
        ensures
            match r {
                Some(i) => i < self@.streams.len() && stream_row(self@.streams, key) == Some(i as int),
                None => stream_row(self@.streams, key) is None,
            },
    {
        proof {
            reveal(AppModel::state);
        }
        let mut r: Option<usize> = None;
        let mut i: usize = 0;
        let ghost all = self.streams@;
        while i < self.streams.len()
            invariant
                i <= self.streams@.len(),
                all == self.streams@,
                match r {
                    Some(k) => k < i && stream_row(all.take(i as int), key) == Some(k as int),
                    None => stream_row(all.take(i as int), key) is None,
                },
            decreases self.streams@.len() - i,
        {
            assert(all.take(i + 1).drop_last() =~= all.take(i as int));
            if r.is_none() && self.streams[i].id == key {
                r = Some(i);
            }
            i = i + 1;
        }
        assert(all.take(i as int) =~= all);
        r
    }

    /// Tells a client's row something.
    fn update_row(&mut self, i: usize, m: ClientRowInput)
        requires
            i < old(self)@.clients.len(),
        ensures
            final(self)@ == old(self)@.with_clients(
                old(self)@.clients.update(i as int, old(self)@.clients[i as int].update(m)),
            ),
    {
        proof {
            reveal(AppModel::state);
        }
        let ghost before = self.clients@;
        let row = &mut self.clients[i];
        row.update(m);
        assert(self@.clients =~= old(self)@.clients.update(
            i as int,
            old(self)@.clients[i as int].update(m),
        ));
    }

    /// Brings a client's row up to date, if it is there. Tells whether it is.
    fn update_client(&mut self, handle: ClientHandle, config: ClientConfig, state: ClientState)
        ensures
            final(self)@ == old(self)@.update_client(handle, config@, state@),
    {
        proof {
            reveal(AppModel::state);
            reveal(WindowView::update_client);
        }
        if let Some(i) = self.client_index_for_handle(handle) {
            self.update_row(i, ClientRowInput::SetConfig(config));
            self.update_row(i, ClientRowInput::SetState(state));
            assert(self@.clients =~= old(self)@.update_client(handle, config@, state@).clients);
        }
    }

    /// Brings a client's row up to date, or adds it.
    fn upsert_client(&mut self, handle: ClientHandle, config: ClientConfig, state: ClientState)
        ensures
            final(self)@ == old(self)@.upsert_client(handle, config@, state@),
    {
        proof {
            reveal(AppModel::state);
            reveal(WindowView::upsert_client);
        }
        if self.client_index_for_handle(handle).is_some() {
            self.update_client(handle, config, state);
        } else {
            let row = ClientRowModel::new(handle, config, state);
            let ghost rv = row@;
            self.clients.push(row);
            assert(self@.clients =~= old(self)@.clients.push(rv));
        }
    }

    /// Brings several clients' rows up to date.
    fn upsert_clients(&mut self, clients: &Vec<(ClientHandle, ClientConfig, ClientState)>)
        ensures
            final(self)@ == old(self)@.upsert_clients(crate::ipc::entry_views(clients@)),
    {
        let ghost all = crate::ipc::entry_views(clients@);
        let mut i: usize = 0;
        assert(all.take(0) =~= seq![]);
        while i < clients.len()
            invariant
                i <= clients@.len(),
                all == crate::ipc::entry_views(clients@),
                self@ == old(self)@.upsert_clients(all.take(i as int)),
            decreases clients@.len() - i,
        {
            let (h, c, s) = &clients[i];
            assert(all.take(i + 1).drop_last() =~= all.take(i as int));
            assert(all.take(i + 1).last() == (*h, c@, s@));
            self.upsert_client(*h, c.clone(), s.clone());
            i = i + 1;
        }
        assert(all.take(i as int) =~= all);
    }

    /// Puts the port into its entry.
    fn reset_port_entry(&mut self)
        ensures
            final(self)@ == old(self)@.reset_port_entry(),
    {
        proof {
            reveal(AppModel::state);
            reveal(WindowView::reset_port_entry);
        }
        self.port_editing = false;
        let text = port_entry_text(self.port);
        self.emit(AppAction::SetPortEntry(text));
    }

    /// Closes the dialog that asks whether a device is authorized.
    fn close_authorization(&mut self)
        ensures
            final(self)@ == old(self)@.close_authorization(),
    {
        proof {
            reveal(AppModel::state);
            reveal(WindowView::close_authorization);
        }
        if self.authorization_open {
            self.authorization_open = false;
            self.emit(AppAction::CloseAuthorization);
        }
    }

    /// Opens the dialog that asks whether a device is authorized.
    fn open_authorization_dialog(&mut self, fingerprint: String)
        ensures
            final(self)@ == old(self)@.open_authorization(fingerprint@),
    {
        proof {
            reveal(AppModel::state);
            reveal(WindowView::open_authorization);
        }
        self.close_authorization();
        self.authorization_open = true;
        self.emit(AppAction::OpenAuthorization(fingerprint));
    }

    /// Closes the dialog that takes a fingerprint.
    fn close_fingerprint(&mut self)
        ensures
            final(self)@ == old(self)@.close_fingerprint(),
    {
        proof {
            reveal(AppModel::state);
            reveal(WindowView::close_fingerprint);
        }
        if self.fingerprint_open {
            self.fingerprint_open = false;
            self.emit(AppAction::CloseFingerprint);
        }
    }

    /// Opens the dialog that takes a fingerprint.
    fn open_fingerprint_dialog(&mut self, fingerprint: Option<String>)
        ensures
            final(self)@ == old(self)@.open_fingerprint(opt_view(fingerprint)),
    {
        proof {
            reveal(AppModel::state);
            reveal(WindowView::open_fingerprint);
        }
        self.close_fingerprint();
        self.fingerprint_open = true;
        self.emit(AppAction::OpenFingerprint(fingerprint));
    }

    /// Adds the row of a device that entered.
    fn device_entered(&mut self, addr: SocketAddr, pos: Position, fingerprint: String)
        requires
            old(self)@.next_row < u64::MAX,
        ensures
            final(self)@ == old(self)@.device_entered(addr, pos, fingerprint@),
    {
        proof {
            reveal(AppModel::state);
            reveal(WindowView::device_entered);
        }
        let id: u64 = self.next_row;
        self.next_row = self.next_row + 1;
        let row = IncomingDeviceRowModel::new(id, addr, Some(pos), fingerprint);
        let ghost rv = row@;
        self.incoming.push(row);
        assert(self@.incoming =~= old(self)@.incoming.push(rv));
        self.incoming_by_addr.insert(addr, id);
    }

    /// Removes the row of a device that is gone.
    fn device_gone(&mut self, addr: SocketAddr)
        ensures
            final(self)@ == old(self)@.device_gone(addr),
    {
        proof {
            reveal(AppModel::state);
            reveal(WindowView::device_gone);
        }
        if let Some(id) = self.incoming_by_addr.remove(addr) {
            if let Some(i) = self.incoming_index(id) {
                let _ = self.incoming.remove(i);
                assert(self@.incoming =~= old(self)@.incoming.remove(i as int));
            }
        } else {
            assert(self@.incoming_by_addr =~= old(self)@.incoming_by_addr);
        }
    }

    /// Shows at a client how its audio stream stands.
    fn client_audio(&mut self, addr: SocketAddr, active: bool, latency_ms: u32)
        ensures
            final(self)@ == old(self)@.client_audio(addr, active, latency_ms),
    {
        proof {
            reveal(AppModel::state);
            reveal(WindowView::client_audio);
        }
        if let Some(i) = self.client_index_for_addr(addr) {
            let latency = if active {
                Some(latency_ms)
            } else {
                None
            };
            self.update_row(i, ClientRowInput::SetAudioStats { active, latency_ms: latency });
        }
    }

    /// Adds, updates or removes the row of an audio stream.
    fn audio_stream(
        &mut self,
        addr: SocketAddr,
        active: bool,
        latency_ms: u32,
        packets_lost: u64,
        level: u32,
    )
        requires
            active && !old(self)@.streams_by_addr.contains_key(addr) ==> old(self)@.next_row
                < u64::MAX,
        ensures
            final(self)@ == old(self)@.audio_stream(addr, active, latency_ms, packets_lost, level),
    {
        proof {
            reveal(AppModel::state);
            reveal(WindowView::audio_stream);
        }
        if active {
            match self.streams_by_addr.get(addr) {
                Some(id) => {
                    if let Some(i) = self.stream_index(id) {
                        let row = &mut self.streams[i];
                        row.update(
                            AudioStreamRowInput::UpdateStats { latency_ms, packets_lost, level },
                        );
                        assert(self@.streams =~= old(self)@.streams.update(
                            i as int,
                            AudioStreamRowModel {
                                latency_ms,
                                packets_lost,
                                level,
                                ..old(self)@.streams[i as int]
                            },
                        ));
                    }
                },
                None => {
                    let id: u64 = self.next_row;
                    self.next_row = self.next_row + 1;
                    self.streams.push(
                        AudioStreamRowModel { id, addr, latency_ms, packets_lost, level },
                    );
                    self.streams_by_addr.insert(addr, id);
                },
            }
        } else {
            if let Some(id) = self.streams_by_addr.remove(addr) {
                if let Some(i) = self.stream_index(id) {
                    let _ = self.streams.remove(i);
                    assert(self@.streams =~= old(self)@.streams.remove(i as int));
                }
            } else {
                assert(self@.streams_by_addr =~= old(self)@.streams_by_addr);
            }
        }
    }

    /// Lists the authorized devices.
    fn set_authorized(&mut self, keys: &crate::text::TextMap<String>)
        ensures
            final(self)@ == (WindowView {
                authorized: key_rows(keys.entries_view()),
                ..old(self)@
            }),
    {
        proof {
            reveal(AppModel::state);
        }
        let mut rows: Vec<KeyRowModel> = Vec::new();
        let ghost all = key_rows(keys.entries_view());
        let n: usize = keys.len();
        let mut i: usize = 0;
        while i < n
            invariant
                i <= n,
                n == keys.entries_view().len(),
                all == key_rows(keys.entries_view()),
                authorized_views(rows@) =~= all.take(i as int),
            decreases n - i,
        {
            let (fingerprint, description) = keys.entry(i);
            let ghost before = authorized_views(rows@);
            rows.push(KeyRowModel::new(description.clone(), fingerprint.clone()));
            assert(authorized_views(rows@) =~= before.push(all[i as int]));
            i = i + 1;
        }
        self.authorized = rows;
        assert(self@.authorized =~= all);
    }

    /// Shows another page.
    fn set_page(&mut self, page: Page)
        ensures
            final(self)@ == (WindowView { page, ..old(self)@ }),
    {
        proof {
            reveal(AppModel::state);
        }
        self.page = page;
    }

    /// Notes the port.
    fn set_port(&mut self, port: u16)
        ensures
            final(self)@ == (WindowView { port, ..old(self)@ }),
    {
        proof {
            reveal(AppModel::state);
        }
        self.port = port;
    }

    /// Notes what stands in the port entry.
    fn set_port_draft(&mut self, text: String)
        ensures
            final(self)@ == (WindowView { port_draft: text@, port_editing: true, ..old(self)@ }),
    {
        proof {
            reveal(AppModel::state);
        }
        self.port_draft = text;
        self.port_editing = true;
    }

    /// The port in the port entry, or the default where there is none.
    fn drafted_port(&self) -> (p: u16)
        ensures
            p == (match port_of(self@.port_draft) {
                Some(p) => p,
                None => DEFAULT_PORT,
            }),
    {
        proof {
            reveal(AppModel::state);
        }
        match parse_port(self.port_draft.as_str()) {
            Some(p) => p,
            None => DEFAULT_PORT,
        }
    }

    /// Notes what runs.
    fn set_running(&mut self, capture: Option<Status>, emulation: Option<Status>)
        ensures
            final(self)@ == (WindowView {
                capture_active: match capture {
                    Some(s) => s == Status::Enabled,
                    None => old(self)@.capture_active,
                },
                emulation_active: match emulation {
                    Some(s) => s == Status::Enabled,
                    None => old(self)@.emulation_active,
                },
                ..old(self)@
            }),
    {
        proof {
            reveal(AppModel::state);
        }
        if let Some(s) = capture {
            self.capture_active = s == Status::Enabled;
        }
        if let Some(s) = emulation {
            self.emulation_active = s == Status::Enabled;
        }
    }

    /// Notes this device's fingerprint.
    fn set_fingerprint(&mut self, fp: String)
        ensures
            final(self)@ == (WindowView { pk_fingerprint: fp@, ..old(self)@ }),
    {
        proof {
            reveal(AppModel::state);
        }
        self.pk_fingerprint = fp;
    }

    /// Removes a client's row.
    fn remove_client(&mut self, handle: ClientHandle)
        ensures
            final(self)@ == (match row_of_handle(old(self)@.clients, handle) {
                Some(i) => old(self)@.with_clients(old(self)@.clients.remove(i)),
                None => old(self)@,
            }),
    {
        proof {
            reveal(AppModel::state);
        }
        if let Some(i) = self.client_index_for_handle(handle) {
            let _ = self.clients.remove(i);
            assert(self@.clients =~= old(self)@.clients.remove(i as int));
        }
    }

    /// Notes the audio settings.
    fn set_audio_status(
        &mut self,
        send: bool,
        receive: bool,
        bitrate: u32,
        buffer_ms: u32,
        loopback_supported: bool,
    )
        ensures
            final(self)@ == (WindowView {
                audio_send: send,
                audio_receive: receive,
                audio_bitrate: bitrate,
                audio_buffer_ms: buffer_ms,
                audio_loopback_supported: loopback_supported,
                ..old(self)@
            }),
    {
        proof {
            reveal(AppModel::state);
        }
        self.audio_send = send;
        self.audio_receive = receive;
        self.audio_bitrate = bitrate;
        self.audio_buffer_ms = buffer_ms;
        self.audio_loopback_supported = loopback_supported;
    }

    /// Notes the audio devices.
    fn set_audio_devices(&mut self, capture: Vec<AudioDeviceInfo>, playback: Vec<AudioDeviceInfo>)
        ensures
            final(self)@ == (WindowView {
                capture_devices: crate::ipc::device_views(capture@),
                playback_devices: crate::ipc::device_views(playback@),
                ..old(self)@
            }),
    {
        proof {
            reveal(AppModel::state);
        }
        self.capture_devices = capture;
        self.playback_devices = playback;
    }

    /// The device selected in a picker.
    fn picked_device(&self, capture: bool, selected: u32) -> (d: Option<String>)
        ensures
            opt_view(d) == WindowView::picked(
                if capture {
                    self@.capture_devices
                } else {
                    self@.playback_devices
                },
                selected,
            ),
    {
        proof {
            reveal(AppModel::state);
        }
        if capture {
            selected_audio_device(&self.capture_devices, selected)
        } else {
            selected_audio_device(&self.playback_devices, selected)
        }
    }

    /// Asks for other audio parameters.
    fn change_audio(&mut self, bitrate: Option<u32>, buffer_ms: Option<u32>)
        ensures
            ({
                let b = match bitrate {
                    Some(b) => b,
                    None => old(self)@.audio_bitrate,
                };
                let ms = match buffer_ms {
                    Some(ms) => ms,
                    None => old(self)@.audio_buffer_ms,
                };
                final(self)@ == WindowView {
                    audio_bitrate: b,
                    audio_buffer_ms: ms,
                    ..old(self)@
                }.request(FrontendRequestView::UpdateAudioSettings { bitrate: b, buffer_ms: ms })
            }),
    {
        proof {
            reveal(AppModel::state);
        }
        if let Some(b) = bitrate {
            self.audio_bitrate = b;
        }
        if let Some(ms) = buffer_ms {
            self.audio_buffer_ms = ms;
        }
        let r = FrontendRequest::UpdateAudioSettings {
            bitrate: self.audio_bitrate,
            buffer_ms: self.audio_buffer_ms,
        };
        self.request(r);
    }

    /// Puts a text of the window on the clipboard.
    fn copy(&mut self, hostname: bool)
        ensures
            final(self)@ == old(self)@.emit(
                AppActionView::Clipboard(
                    if hostname {
                        old(self)@.hostname
                    } else {
                        old(self)@.pk_fingerprint
                    },
                ),
            ),
    {
        proof {
            reveal(AppModel::state);
        }
        let text = if hostname {
            self.hostname.clone()
        } else {
            self.pk_fingerprint.clone()
        };
        self.emit(AppAction::Clipboard(text));
    }

    /// Filters the log.
    fn filter_log(&mut self, filter: Option<LogCategory>)
        ensures
            final(self)@ == (WindowView { log: old(self)@.log.filtered(filter), ..old(self)@ }),
    {
        proof {
            reveal(AppModel::state);
        }
        self.log.apply_filter(filter);
    }

    /// Puts the lines of the log that show on the clipboard.
    fn copy_log(&mut self)
        ensures
            final(self)@ == old(self)@.emit(
                AppActionView::Clipboard(
                    crate::text::joined(
                        super::logs::visible_texts(old(self)@.log.entries),
                        "\n"@,
                    ),
                ),
            ),
    {
        proof {
            reveal(AppModel::state);
        }
        let text = self.log.copy_visible();
        self.emit(AppAction::Clipboard(text));
    }

    /// Empties the log.
    fn clear_log(&mut self)
        ensures
            final(self)@ == (WindowView {
                log: LogView { entries: seq![], ..old(self)@.log },
                ..old(self)@
            }),
    {
        proof {
            reveal(AppModel::state);
        }
        self.log.clear();
    }

    /// Asks to withdraw the authorization of a device in the list.
    fn delete_key(&mut self, i: usize)
        ensures
            final(self)@ == if i < old(self)@.authorized.len() {
                old(self)@.request(
                    FrontendRequestView::RemoveAuthorizedKey(old(self)@.authorized[i as int].1),
                )
            } else {
                old(self)@
            },
    {
        proof {
            reveal(AppModel::state);
        }
        if i < self.authorized.len() {
            let fingerprint = self.authorized[i].fingerprint().to_owned();
            self.request(FrontendRequest::RemoveAuthorizedKey(fingerprint));
        }
    }

    /// Asks to move a client to the edge with a name.
    fn move_screen(&mut self, handle: ClientHandle, name: &str)
        ensures
            final(self)@ == old(self)@.move_screen(handle, name@),
    {
        match Position::from_str(name) {
            Ok(pos) => {
                proof {
                    let q = choose|p: Position| position_text(p) == name@;
                    crate::ipc::lemma_position_text_injective(pos, q);
                }
                self.request(FrontendRequest::UpdatePosition(handle, pos));
            },
            Err(_) => {},
        }
    }

    /// Shows what an event of the service changes.
    fn handle_frontend_event(&mut self, event: FrontendEvent, v6: &str)
        requires
            old(self)@.takes_row(event) ==> old(self)@.next_row < u64::MAX,
        ensures
            final(self)@ == old(self)@.event(event, v6@),
    {
        match event {
            FrontendEvent::Created(handle, config, state) => {
                self.upsert_client(handle, config, state);
            },
            FrontendEvent::NoSuchClient(_) => {},
            FrontendEvent::State(handle, config, state) => {
                self.update_client(handle, config, state);
            },
            FrontendEvent::Deleted(handle) => {
                self.remove_client(handle);
            },
            FrontendEvent::PortChanged(port, msg) => {
                self.set_port(port);
                self.reset_port_entry();
                if let Some(msg) = msg {
                    self.emit(AppAction::Toast(msg));
                }
            },
            FrontendEvent::Enumerate(clients) => {
                self.upsert_clients(&clients);
            },
            FrontendEvent::Error(e) => {
                self.emit(AppAction::Toast(e));
            },
            FrontendEvent::CaptureStatus(status) => {
                self.set_running(Some(status), None);
            },
            FrontendEvent::EmulationStatus(status) => {
                self.set_running(None, Some(status));
            },
            FrontendEvent::AuthorizedUpdated(keys) => {
                self.set_authorized(&keys);
            },
            FrontendEvent::PublicKeyFingerprint(fp) => {
                self.set_fingerprint(fp);
            },
            FrontendEvent::ConnectionAttempt { fingerprint } => {
                self.open_authorization_dialog(fingerprint);
            },
            FrontendEvent::DeviceConnected { addr, .. } => {
                let text = concat2("device connected: ", addr_string(addr, v6).as_str());
                self.emit(AppAction::Toast(text));
            },
            FrontendEvent::DeviceEntered { fingerprint, addr: from, pos } => {
                self.device_entered(from, pos, fingerprint);
            },
            FrontendEvent::IncomingDisconnected(from) => {
                self.device_gone(from);
            },
            FrontendEvent::AudioStream { addr: from, active, latency_ms, packets_lost, level } => {
                proof {
                    reveal(WindowView::client_audio);
                }
                self.client_audio(from, active, latency_ms);
                self.audio_stream(from, active, latency_ms, packets_lost, level);
            },
            FrontendEvent::AudioStatus { send, receive, bitrate, buffer_ms, loopback_supported } => {
                self.set_audio_status(send, receive, bitrate, buffer_ms, loopback_supported);
            },
            FrontendEvent::AudioDevices { capture, playback } => {
                self.set_audio_devices(capture, playback);
            },
            FrontendEvent::AudioError { addr: of, message } => {
                let text = match of {
                    Some(a) => {
                        let mut s = concat3("audio error (", addr_string(a, v6).as_str(), "): ");
                        s.append(message.as_str());
                        s
                    },
                    None => concat2("audio error: ", message.as_str()),
                };
                self.emit(AppAction::Toast(text));
            },
            FrontendEvent::OperationMode(_) => {},
            FrontendEvent::ConnectionTested { .. } => {},
            FrontendEvent::ServerEndpoint { .. } => {},
        }
    }

    /// Logs and shows an event of the service. `v6` is how its address is
    /// written, where it is a V6 one, and `ts` the time of day.
    pub fn frontend(&mut self, event: FrontendEvent, v6: &str, ts: &str)
        requires
            old(self)@.takes_row(event) ==> old(self)@.next_row < u64::MAX,
        ensures
            final(self)@ == old(self)@.frontend(event, v6@, ts@),
    {
        proof {
            reveal(AppModel::state);
        }
        let _ = self.log.log_event(&event, v6, ts);
        self.handle_frontend_event(event, v6);
    }

    /// The handle of a client's row.
    fn handle_at(&self, i: usize) -> (h: Option<ClientHandle>)
        ensures
            h == if i < self@.clients.len() {
                Some(self@.clients[i as int].handle)
            } else {
                None
            },
    {
        proof {
            reveal(AppModel::state);
        }
        if i < self.clients.len() {
            Some(self.clients[i].handle())
        } else {
            None
        }
    }

    /// Asks for what a control of a client's row wants.
    fn handle_client_row_output(&mut self, output: ClientRowOutput)
        ensures
            final(self)@ == old(self)@.row_output(output),
    {
        proof {
            reveal(WindowView::row_output);
        }
        match output {
            ClientRowOutput::Activate(i, active) => {
                if let Some(h) = self.handle_at(i) {
                    self.request(FrontendRequest::Activate(h, active));
                }
            },
            ClientRowOutput::Delete(i) => {
                if let Some(h) = self.handle_at(i) {
                    self.request(FrontendRequest::Delete(h));
                }
            },
            ClientRowOutput::RequestDns(i) => {
                if let Some(h) = self.handle_at(i) {
                    self.request(FrontendRequest::ResolveDns(h));
                }
            },
            ClientRowOutput::HostnameChange(i, hostname) => {
                if let Some(h) = self.handle_at(i) {
                    let name = if hostname.as_str().unicode_len() == 0 {
                        None
                    } else {
                        Some(hostname)
                    };
                    self.request(FrontendRequest::UpdateHostname(h, name));
                }
            },
            ClientRowOutput::PortChange(i, port) => {
                if let Some(h) = self.handle_at(i) {
                    self.request(FrontendRequest::UpdatePort(h, port));
                }
            },
            ClientRowOutput::PositionChange(i, pos) => {
                if let Some(h) = self.handle_at(i) {
                    self.request(FrontendRequest::UpdatePosition(h, pos));
                }
            },
        }
    }

    /// Does what the window is told.
    pub fn update(&mut self, message: AppMsg)
        ensures
            final(self)@ == old(self)@.update(message),
    {
        match message {
            AppMsg::NavigateTo(page) => {
                self.set_page(page);
            },
            AppMsg::AddClient => self.request(FrontendRequest::Create),
            AppMsg::CopyHostname => {
                self.copy(true);
            },
            AppMsg::CopyFingerprint => {
                self.copy(false);
            },
            AppMsg::PortEntryChanged(text) => {
                self.set_port_draft(text);
            },
            AppMsg::PortEditApply => {
                let port: u16 = self.drafted_port();
                self.request(FrontendRequest::ChangePort(port));
            },
            AppMsg::PortEditCancel => self.reset_port_entry(),
            AppMsg::ScreenPositionChanged(handle, name) => {
                self.move_screen(handle, name.as_str());
            },
            AppMsg::OpenFingerprintDialog(fp) => self.open_fingerprint_dialog(fp),
            AppMsg::ToggleCapture { needs_permission, granted } => {
                if !needs_permission {
                    self.request(FrontendRequest::EnableCapture);
                } else if granted {
                    self.emit(AppAction::Relaunch);
                    self.emit(AppAction::Quit);
                } else {
                    self.emit(AppAction::OpenPermissionSettings);
                }
            },
            AppMsg::ToggleEmulation => self.request(FrontendRequest::EnableEmulation),
            AppMsg::AudioSendToggled(on) => self.request(FrontendRequest::SetAudioSend(on)),
            AppMsg::AudioReceiveToggled(on) => self.request(FrontendRequest::SetAudioReceive(on)),
            AppMsg::AudioCaptureDeviceChanged(i) => {
                let device = self.picked_device(true, i);
                self.request(FrontendRequest::SetAudioCaptureDevice(device));
            },
            AppMsg::AudioPlaybackDeviceChanged(i) => {
                let device = self.picked_device(false, i);
                self.request(FrontendRequest::SetAudioPlaybackDevice(device));
            },
            AppMsg::AudioBitrateChanged(i) => {
                let bitrate: u32 = match selected_bitrate(i) {
                    Some(b) => b,
                    None => 96_000,
                };
                self.change_audio(Some(bitrate), None);
            },
            AppMsg::AudioBufferChanged(buffer_ms) => {
                self.change_audio(None, Some(buffer_ms));
            },
            AppMsg::LogFilterChanged(filter) => self.filter_log(filter),
            AppMsg::LogCopy => self.copy_log(),
            AppMsg::LogClear => self.clear_log(),
            AppMsg::ClientRow(output) => self.handle_client_row_output(output),
            AppMsg::DeleteKey(i) => self.delete_key(i),
            AppMsg::AuthorizationConfirmed(fingerprint) => {
                self.close_authorization();
                self.open_fingerprint_dialog(Some(fingerprint));
            },
            AppMsg::AuthorizationCancelled => self.close_authorization(),
            AppMsg::FingerprintConfirmed(desc, fp) => {
                self.close_fingerprint();
                self.request(FrontendRequest::AuthorizeKey(desc, fp));
            },
            AppMsg::PermissionGranted => {},
            AppMsg::PermissionRevoked => self.emit(AppAction::Quit),
        }
    }

    /// The screens of the arrangement.
    pub fn screen_items(&self) -> (r: Vec<ScreenItem>)
        ensures
            screen_views(r@) == self@.clients.map_values(|c: ClientRowView| screen_of(c)),
    {
        proof {
            reveal(AppModel::state);
        }
        let mut r: Vec<ScreenItem> = Vec::new();
        let ghost all = client_row_views(self.clients@).map_values(
            |c: ClientRowView| screen_of(c),
        );
        let mut i: usize = 0;
        while i < self.clients.len()
            invariant
                i <= self.clients@.len(),
                all == client_row_views(self.clients@).map_values(
                    |c: ClientRowView| screen_of(c),
                ),
                screen_views(r@) =~= all.take(i as int),
            decreases self.clients@.len() - i,
        {
            let row = &self.clients[i];
            let ghost before = screen_views(r@);
            let item = ScreenItem {
                handle: row.handle(),
                hostname: match row.hostname() {
                    Some(n) => Some(n.to_owned()),
                    None => None,
                },
                position: row.position(),
                active: row.active(),
                audio_active: row.audio_active(),
            };
            let ghost iv = item@;
            r.push(item);
            assert(screen_views(r@) =~= before.push(iv));
            assert(iv == all[i as int]);
            i = i + 1;
        }
        assert(screen_views(r@) =~= all);
        r
    }

    /// The line that tells whether the service runs.
    pub fn status_text(&self) -> (s: &'static str)
        ensures
            s@ == status_line(self@.capture_active, self@.emulation_active),
    {
        proof {
            reveal(AppModel::state);
        }
        match (self.capture_active, self.emulation_active) {
            (true, true) => "Running",
            (false, false) => "Capture & emulation disabled",
            (false, true) => "Capture disabled",
            (true, false) => "Emulation disabled",
        }
    }

    /// The style of the light that tells whether the service runs.
    pub fn status_led_css(&self) -> (s: &'static str)
        ensures
            s@ == if self@.capture_active && self@.emulation_active {
                "success"@
            } else {
                "warning"@
            },
    {
        proof {
            reveal(AppModel::state);
        }
        if self.capture_active && self.emulation_active {
            "success"
        } else {
            "warning"
        }
    }

    /// Whether the row shows that tells that capture is off. Where one
    /// permission covers both, it stands for emulation too.
    pub fn capture_row_visible(&self, needs_permission: bool) -> (b: bool)
        ensures
            b == (!self@.capture_active || (needs_permission && !self@.emulation_active)),
    {
        proof {
            reveal(AppModel::state);
        }
        !self.capture_active || (needs_permission && !self.emulation_active)
    }

    /// Whether the row shows that tells that emulation is off.
    pub fn emulation_row_visible(&self, needs_permission: bool) -> (b: bool)
        ensures
            b == (!needs_permission && !self@.emulation_active),
    {
        proof {
            reveal(AppModel::state);
        }
        !needs_permission && !self.emulation_active
    }

    /// The page that shows.
    pub fn page(&self) -> (p: Page)
        ensures
            p == self@.page,
    {
        proof {
            reveal(AppModel::state);
        }
        self.page
    }

    /// Whether the port entry holds something that was not applied.
    pub fn port_editing(&self) -> (b: bool)
        ensures
            b == self@.port_editing,
    {
        proof {
            reveal(AppModel::state);
        }
        self.port_editing
    }

    /// The rows of the clients.
    pub fn client_rows(&self) -> (r: &Vec<ClientRowModel>)
        ensures
            client_row_views(r@) == self@.clients,
    {
        proof {
            reveal(AppModel::state);
        }
        &self.clients
    }

    /// Description and fingerprint of the authorized devices.
    pub fn authorized_rows(&self) -> (r: &Vec<KeyRowModel>)
        ensures
            authorized_views(r@) == self@.authorized,
    {
        proof {
            reveal(AppModel::state);
        }
        &self.authorized
    }

    /// The rows of devices that entered.
    pub fn incoming_rows(&self) -> (r: &Vec<IncomingDeviceRowModel>)
        ensures
            incoming_row_views(r@) == self@.incoming,
    {
        proof {
            reveal(AppModel::state);
        }
        &self.incoming
    }

    /// The rows of audio streams.
    pub fn stream_rows(&self) -> (r: &Vec<AudioStreamRowModel>)
        ensures
            r@ == self@.streams,
    {
        proof {
            reveal(AppModel::state);
        }
        &self.streams
    }

    /// The log.
    pub fn log(&self) -> (l: &LogState)
        ensures
            l@ == self@.log,
    {
        proof {
            reveal(AppModel::state);
        }
        &self.log
    }

    /// Whether more rows can be numbered.
    pub fn has_row_numbers(&self) -> (b: bool)
        ensures
            b == (self@.next_row < u64::MAX),
    {
        proof {
            reveal(AppModel::state);
        }
        self.next_row < u64::MAX
    }

    /// Whether there is a number left for the row that an event takes.
    pub fn has_row_number_for(&self, event: &FrontendEvent) -> (b: bool)
        ensures
            b == (self@.takes_row(*event) ==> self@.next_row < u64::MAX),
    {
        proof {
            reveal(AppModel::state);
        }
        match event {
            FrontendEvent::DeviceEntered { .. } => self.has_row_numbers(),
            FrontendEvent::AudioStream { addr, active, .. } => !*active || self.has_row_numbers()
                || self.streams_by_addr.get(*addr).is_some(),
            _ => true,
        }
    }
}

/// The title of the row that tells that capture is off.
pub fn capture_row_title(needs_permission: bool, granted: bool) -> (s: &'static str)
    ensures
        s@ == if needs_permission && granted {
            "relaunch required"@
        } else {
            "input capture is disabled"@
        },
{
    if needs_permission && granted {
        "relaunch required"
    } else {
        "input capture is disabled"
    }
}

/// The line below that title.
pub fn capture_row_subtitle(needs_permission: bool, granted: bool) -> (s: &'static str)
    ensures
        s@ == if !needs_permission {
            "required for outgoing and incoming connections"@
        } else if granted {
            "Accessibility granted — restart to activate capture and emulation"@
        } else {
            "grant Accessibility permission to enable"@
        },
{
    if !needs_permission {
        "required for outgoing and incoming connections"
    } else if granted {
        "Accessibility granted — restart to activate capture and emulation"
    } else {
        "grant Accessibility permission to enable"
    }
}

/// The label of the button in that row.
pub fn capture_row_button_label(needs_permission: bool, granted: bool) -> (s: &'static str)
    ensures
        s@ == if !needs_permission {
            "Reenable"@
        } else if granted {
            "Relaunch"@
        } else {
            "Grant"@
        },
{
    if !needs_permission {
        "Reenable"
    } else if granted {
        "Relaunch"
    } else {
        "Grant"
    }
}

} // verus!
