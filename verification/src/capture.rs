//! Input capture: who gets the captured input.

pub mod laws;

use crate::client::{ClientManager, ManagerView, QueryView};
use crate::ipc::{opposite, ClientHandle, Position, StateView};
use crate::listen::ListenEvent;
use crate::net::SocketAddr;
use crate::proto;
use crate::proto::{InputEvent, KeyboardEvent, ProtoEvent};
use crate::text::TextMap;
use vstd::prelude::*;

verus! {

/// What a barrier at a screen edge is for.
#[derive(Clone, Copy, Debug, PartialEq, Eq, Structural)]
pub enum CaptureType {
    /// a normal input capture
    Default,
    /// a capture only interested in the crossing of the edge
    EnterOnly,
}

/// What input capture tells the service.
#[derive(Debug)]
pub enum ICaptureEvent {
    /// a barrier was crossed
    CaptureBegin(ClientHandle),
    /// capture was disabled
    CaptureDisabled,
    /// capture was enabled
    CaptureEnabled,
    /// a client is entered that was not entered before
    ClientEntered(ClientHandle),
    /// a device that is not authorized tried to connect
    ConnectionAttempt { fingerprint: String },
    /// an authorized device that is not paired connected
    DeviceConnected { addr: SocketAddr, fingerprint: String },
    /// a device that is not paired disconnected
    DeviceDisconnected { addr: SocketAddr },
    /// the listen port changed, or could not be changed for the given reason
    PortChanged(Result<u16, String>),
    /// something about a client changed
    ClientStateChanged(ClientHandle),
    /// status of a peer's audio stream
    AudioStream { addr: SocketAddr, active: bool, latency_ms: u32, packets_lost: u64, level: u32 },
}

/// What input capture tells the service, as a value.
pub enum ICaptureEventView {
    CaptureBegin(ClientHandle),
    CaptureDisabled,
    CaptureEnabled,
    ClientEntered(ClientHandle),
    ConnectionAttempt { fingerprint: Seq<char> },
    DeviceConnected { addr: SocketAddr, fingerprint: Seq<char> },
    DeviceDisconnected { addr: SocketAddr },
    PortChanged(Result<u16, Seq<char>>),
    ClientStateChanged(ClientHandle),
    AudioStream { addr: SocketAddr, active: bool, latency_ms: u32, packets_lost: u64, level: u32 },
}

impl View for ICaptureEvent {
    type V = ICaptureEventView;

    open spec fn view(&self) -> ICaptureEventView {
        match self {
            ICaptureEvent::CaptureBegin(h) => ICaptureEventView::CaptureBegin(*h),
            ICaptureEvent::CaptureDisabled => ICaptureEventView::CaptureDisabled,
            ICaptureEvent::CaptureEnabled => ICaptureEventView::CaptureEnabled,
            ICaptureEvent::ClientEntered(h) => ICaptureEventView::ClientEntered(*h),
            ICaptureEvent::ConnectionAttempt { fingerprint } =>
                ICaptureEventView::ConnectionAttempt { fingerprint: fingerprint@ },
            ICaptureEvent::DeviceConnected { addr, fingerprint } =>
                ICaptureEventView::DeviceConnected { addr: *addr, fingerprint: fingerprint@ },
            ICaptureEvent::DeviceDisconnected { addr } => ICaptureEventView::DeviceDisconnected {
                addr: *addr,
            },
            ICaptureEvent::PortChanged(Ok(p)) => ICaptureEventView::PortChanged(Ok(*p)),
            ICaptureEvent::PortChanged(Err(e)) => ICaptureEventView::PortChanged(Err(e@)),
            ICaptureEvent::ClientStateChanged(h) => ICaptureEventView::ClientStateChanged(*h),
            ICaptureEvent::AudioStream { addr, active, latency_ms, packets_lost, level } =>
                ICaptureEventView::AudioStream {
                addr: *addr,
                active: *active,
                latency_ms: *latency_ms,
                packets_lost: *packets_lost,
                level: *level,
            },
        }
    }
}

/// What the capture backend reports of a barrier.
#[derive(Clone, Copy, Debug, PartialEq, Eq)]
pub enum CaptureEvent {
    /// the pointer crossed it
    Begin,
    /// input was captured behind it
    Input(InputEvent),
}

/// Whether the entered client has answered.
#[derive(Clone, Copy, Debug, PartialEq, Eq, Structural)]
pub enum State {
    /// not yet: the crossing is announced again
    WaitingForAck,
    /// it has: input is sent
    Sending,
}

/// Work for the surrounding program.
#[derive(Debug)]
pub enum CaptureAction {
    /// tell the service
    Tell(ICaptureEvent),
    /// answer over all connections from an address
    Reply(SocketAddr, ProtoEvent),
    /// send an event to a client; a failure is only logged
    Send(ClientHandle, ProtoEvent),
    /// have the backend let go of the input
    BackendRelease,
}

/// Work for the surrounding program, as a value.
pub enum CaptureActionView {
    Tell(ICaptureEventView),
    Reply(SocketAddr, ProtoEvent),
    Send(ClientHandle, ProtoEvent),
    BackendRelease,
}

impl View for CaptureAction {
    type V = CaptureActionView;

    open spec fn view(&self) -> CaptureActionView {
        match self {
            CaptureAction::Tell(e) => CaptureActionView::Tell(e@),
            CaptureAction::Reply(a, e) => CaptureActionView::Reply(*a, *e),
            CaptureAction::Send(h, e) => CaptureActionView::Send(*h, *e),
            CaptureAction::BackendRelease => CaptureActionView::BackendRelease,
        }
    }
}

/// The actions of a list, as values.
pub open spec fn capture_views(actions: Seq<CaptureAction>) -> Seq<CaptureActionView> {
    actions.map_values(|a: CaptureAction| a@)
}

/// No action.
fn no_actions() -> (v: Vec<CaptureAction>)
    ensures
        v@.len() == 0,
        capture_views(v@) == Seq::<CaptureActionView>::empty(),
{
    let v: Vec<CaptureAction> = Vec::new();
    assert(capture_views(v@) =~= Seq::<CaptureActionView>::empty());
    v
}

/// One action.
fn one_action(a: CaptureAction) -> (v: Vec<CaptureAction>)
    ensures
        capture_views(v@) == seq![a@],
{
    let mut v: Vec<CaptureAction> = Vec::new();
    v.push(a);
    assert(capture_views(v@) =~= seq![a@]);
    v
}

/// An edge as it stands on the wire.
pub open spec fn proto_pos(pos: Position) -> proto::Position {
    match pos {
        Position::Left => proto::Position::Left,
        Position::Right => proto::Position::Right,
        Position::Top => proto::Position::Top,
        Position::Bottom => proto::Position::Bottom,
    }
}

/// An edge as it stands on the wire.
pub fn to_proto_pos(pos: Position) -> (p: proto::Position)
    ensures
        p == proto_pos(pos),
{
    match pos {
        Position::Left => proto::Position::Left,
        Position::Right => proto::Position::Right,
        Position::Top => proto::Position::Top,
        Position::Bottom => proto::Position::Bottom,
    }
}

/// A device that is turned away is reported again only if it kept away for
/// this long, in milliseconds.
pub const REJECT_QUIET_MS: u64 = 2_000;

/// Failed sends are logged at most this often, in milliseconds.
pub const SEND_LOG_QUIET_MS: u64 = 500;

/// Handle, edge and kind of a barrier.
pub type Barrier = (ClientHandle, Position, CaptureType);

/// The state of input capture.
pub struct CaptureView {
    /// the client that is entered
    pub active_client: Option<ClientHandle>,
    /// the barriers, in the order they were put up
    pub captures: Seq<Barrier>,
    /// devices are accepted
    pub listening: bool,
    /// capturing is wanted
    pub enabled: bool,
    /// when devices that were turned away tried last
    pub rejected: Map<Seq<char>, u64>,
    /// the keys that release the capture
    pub release_bind: Seq<u32>,
    /// whether the entered client has answered
    pub state: State,
    /// when a failed send was logged last
    pub last_log_ms: Option<u64>,
}

/// The place of a barrier.
pub open spec fn barrier_at(captures: Seq<Barrier>, h: ClientHandle) -> Option<int>
    decreases captures.len(),
{
    if captures.len() == 0 {
        None
    } else {
        match barrier_at(captures.drop_last(), h) {
            Some(i) => Some(i),
            None => if captures.last().0 == h {
                Some(captures.len() - 1)
            } else {
                None
            },
        }
    }
}

/// A normal barrier stands at an edge.
pub open spec fn default_at(captures: Seq<Barrier>, pos: Position) -> bool {
    exists|i: int|
        0 <= i < captures.len() && (#[trigger] captures[i]).1 == pos && captures[i].2
            == CaptureType::Default
}

/// The barriers without those of a handle.
pub open spec fn without(captures: Seq<Barrier>, h: ClientHandle) -> Seq<Barrier>
    decreases captures.len(),
{
    if captures.len() == 0 {
        captures
    } else if captures.last().0 == h {
        without(captures.drop_last(), h)
    } else {
        without(captures.drop_last(), h).push(captures.last())
    }
}

/// A barrier that came down is gone, and the others stand as they stood.
pub proof fn lemma_without(captures: Seq<Barrier>, h: ClientHandle, b: Barrier)
    ensures
        without(captures, h).contains(b) <==> captures.contains(b) && b.0 != h,
    decreases captures.len(),
{
    if captures.len() > 0 {
        let init = captures.drop_last();
        lemma_without(init, h, b);
        let w = without(captures, h);
        if captures.contains(b) {
            let i = choose|i: int| 0 <= i < captures.len() && captures[i] == b;
            if i < init.len() {
                assert(init[i] == b);
            }
        }
        if init.contains(b) {
            let i = choose|i: int| 0 <= i < init.len() && init[i] == b;
            assert(captures[i] == b);
        }
        if captures.last().0 != h {
            let u = without(init, h);
            if u.contains(b) {
                let i = choose|i: int| 0 <= i < u.len() && u[i] == b;
                assert(w[i] == b);
            }
            assert(w[u.len() as int] == captures.last());
            if w.contains(b) {
                let i = choose|i: int| 0 <= i < w.len() && w[i] == b;
                if i < u.len() {
                    assert(u[i] == b);
                }
            }
            assert(captures[captures.len() - 1] == captures.last());
        }
    }
}

/// A barrier's place holds it.
pub proof fn lemma_barrier_at(captures: Seq<Barrier>, h: ClientHandle)
    ensures
        match barrier_at(captures, h) {
            Some(i) => 0 <= i < captures.len() && captures[i].0 == h && forall|j: int|
                0 <= j < i ==> (#[trigger] captures[j]).0 != h,
            None => forall|j: int| 0 <= j < captures.len() ==> (#[trigger] captures[j]).0 != h,
        },
    decreases captures.len(),
{
    if captures.len() > 0 {
        let init = captures.drop_last();
        lemma_barrier_at(init, h);
        assert(forall|j: int| 0 <= j < init.len() ==> init[j] == captures[j]);
    }
}

/// What follows an event of the capture backend.
#[derive(Clone, Copy, Debug, PartialEq, Eq)]
pub enum CaptureNext {
    /// nothing
    Nothing,
    /// the capture is released and the entered client told
    ReleaseCapture,
    /// the backend lets go of the input
    BackendRelease,
    /// an event is sent to a client; if that fails the backend lets go
    Send(ClientHandle, ProtoEvent),
}

impl CaptureView {
    /// The backend's event begins the entering of another client.
    pub open spec fn enters(self, h: ClientHandle, e: CaptureEvent) -> bool {
        e == CaptureEvent::Begin && self.active_client != Some(h)
    }

    /// The kind of a barrier.
    pub open spec fn kind(self, h: ClientHandle) -> CaptureType {
        self.captures[barrier_at(self.captures, h)->0].2
    }

    /// The edge of a barrier.
    pub open spec fn edge(self, h: ClientHandle) -> Position {
        self.captures[barrier_at(self.captures, h)->0].1
    }

    /// After an event of the backend.
    pub open spec fn after_backend(
        self,
        h: ClientHandle,
        e: CaptureEvent,
        bind_pressed: bool,
    ) -> CaptureView {
        if bind_pressed || self.kind(h) == CaptureType::EnterOnly || !self.enters(h, e) {
            self
        } else {
            CaptureView { state: State::WaitingForAck, active_client: Some(h), ..self }
        }
    }

    /// What the service is told after an event of the backend.
    pub open spec fn told_after_backend(
        self,
        h: ClientHandle,
        e: CaptureEvent,
        bind_pressed: bool,
    ) -> Seq<ICaptureEvent> {
        if bind_pressed || e != CaptureEvent::Begin {
            seq![]
        } else if self.kind(h) == CaptureType::Default && self.enters(h, e) {
            seq![ICaptureEvent::CaptureBegin(h), ICaptureEvent::ClientEntered(h)]
        } else {
            seq![ICaptureEvent::CaptureBegin(h)]
        }
    }

    /// What follows an event of the backend. The release keys end the
    /// capture. An enter-only barrier is let go unless a client lies at the
    /// same edge. A client is sent its input once it has answered, and told
    /// again that it is entered until then.
    pub open spec fn next_after_backend(
        self,
        h: ClientHandle,
        e: CaptureEvent,
        bind_pressed: bool,
    ) -> CaptureNext {
        if bind_pressed {
            CaptureNext::ReleaseCapture
        } else if self.kind(h) == CaptureType::EnterOnly {
            if default_at(self.captures, self.edge(h)) {
                CaptureNext::Nothing
            } else {
                CaptureNext::BackendRelease
            }
        } else {
            let enter = ProtoEvent::Enter(proto_pos(opposite(self.edge(h))));
            match e {
                CaptureEvent::Begin => CaptureNext::Send(h, enter),
                CaptureEvent::Input(input) => match self.state {
                    State::WaitingForAck => CaptureNext::Send(h, enter),
                    State::Sending => CaptureNext::Send(h, ProtoEvent::Input(input)),
                },
            }
        }
    }

    /// What releasing the capture does: keys that are still held come up, the
    /// modifiers are cleared, the client is left, and the backend lets go.
    pub open spec fn release_actions(self, pressed: Seq<u32>) -> Seq<CaptureActionView> {
        match self.active_client {
            Some(h) => pressed.map_values(|k: u32| key_up(h, k)) + seq![
                CaptureActionView::Send(h, no_modifiers()),
                CaptureActionView::Send(h, ProtoEvent::Leave(0)),
                CaptureActionView::BackendRelease,
            ],
            None => seq![CaptureActionView::BackendRelease],
        }
    }
}

/// A key comes up at a client.
pub open spec fn key_up(h: ClientHandle, key: u32) -> CaptureActionView {
    CaptureActionView::Send(
        h,
        ProtoEvent::Input(InputEvent::Keyboard(KeyboardEvent::Key { time: 0, key, state: 0 })),
    )
}

/// All modifiers are cleared.
pub open spec fn no_modifiers() -> ProtoEvent {
    ProtoEvent::Input(
        InputEvent::Keyboard(
            KeyboardEvent::Modifiers { depressed: 0, latched: 0, locked: 0, group: 0 },
        ),
    )
}

/// A device that is turned away is reported: it never tried before, or kept
/// away for long.
pub open spec fn reports_rejection(
    rejected: Map<Seq<char>, u64>,
    fingerprint: Seq<char>,
    now_ms: u64,
) -> bool {
    !rejected.contains_key(fingerprint) || now_ms >= rejected[fingerprint] + REJECT_QUIET_MS
}

/// A connection's event, whether or not input is captured: what becomes of
/// the clients, of the devices that were turned away, and what is done.
pub open spec fn listen_step(
    v: CaptureView,
    clients: ManagerView,
    event: ListenEvent,
    now_ms: u64,
    commit: [u8; 8],
    clients2: ManagerView,
    actions: Seq<CaptureActionView>,
) -> bool {
    match event {
        ListenEvent::Accept { addr, fingerprint } => match clients.first(
            QueryView::Fingerprint(fingerprint@),
        ) {
            Some(h) => clients2 == bound(clients, h, addr) && actions == seq![changed(h)],
            None => clients2 == (ManagerView {
                parked: clients.parked.insert(fingerprint@, addr),
                ..clients
            }) && actions == seq![
                CaptureActionView::Tell(
                    ICaptureEventView::DeviceConnected { addr, fingerprint: fingerprint@ },
                ),
            ],
        },
        ListenEvent::Rejected { fingerprint } => clients2 == clients && actions
            == if reports_rejection(v.rejected, fingerprint@, now_ms) {
            seq![
                CaptureActionView::Tell(
                    ICaptureEventView::ConnectionAttempt { fingerprint: fingerprint@ },
                ),
            ]
        } else {
            seq![]
        },
        ListenEvent::Disconnected { addr } => match clients.first(QueryView::ActiveAddr(addr)) {
            Some(h) => clients2 == unbound(clients, h) && actions == seq![changed(h)],
            None => if clients.parked.contains_value(addr) {
                left_waiting(clients, addr, clients2) && actions == seq![
                    CaptureActionView::Tell(ICaptureEventView::DeviceDisconnected { addr }),
                ]
            } else {
                clients2 == clients && actions == Seq::<CaptureActionView>::empty()
            },
        },
        ListenEvent::Msg { event, addr } => match event {
            ProtoEvent::Pong(alive) => match clients.first(QueryView::ActiveAddr(addr)) {
                Some(h) => clients2 == with_alive(clients, h, alive) && actions
                    == if is_alive(clients, h) != alive {
                    seq![changed(h)]
                } else {
                    seq![]
                },
                None => clients2 == clients && actions == Seq::<CaptureActionView>::empty(),
            },
            ProtoEvent::Hello { commit: theirs } => {
                let reply = if v.listening {
                    seq![CaptureActionView::Reply(addr, ProtoEvent::Hello { commit })]
                } else {
                    seq![]
                };
                match clients.first(QueryView::ActiveAddr(addr)) {
                    Some(h) => clients2 == with_commit(clients, h, Some(theirs)) && actions
                        == reply.push(changed(h)),
                    None => clients2 == clients && actions == reply,
                }
            },
            _ => clients2 == clients && actions == Seq::<CaptureActionView>::empty(),
        },
        ListenEvent::AudioStream { addr, active, latency_ms, packets_lost, level } => clients2
            == clients && actions == seq![
            CaptureActionView::Tell(
                ICaptureEventView::AudioStream { addr, active, latency_ms, packets_lost, level },
            ),
        ],
    }
}

/// An address is that of the entered client.
pub open spec fn own_addr(v: CaptureView, clients: ManagerView, addr: SocketAddr) -> bool {
    v.active_client is Some && clients.first(QueryView::ActiveAddr(addr)) == v.active_client
}

/// A device that waited at an address waits no more.
pub open spec fn left_waiting(
    clients: ManagerView,
    addr: SocketAddr,
    clients2: ManagerView,
) -> bool {
    exists|f: Seq<char>| #[trigger]
        clients.parked.contains_key(f) && clients.parked[f] == addr && clients2 == (ManagerView {
            parked: clients.parked.remove(f),
            ..clients
        })
}

/// The service is told that a client changed.
pub open spec fn changed(h: ClientHandle) -> CaptureActionView {
    CaptureActionView::Tell(ICaptureEventView::ClientStateChanged(h))
}

/// A client is available.
pub open spec fn is_alive(clients: ManagerView, h: ClientHandle) -> bool {
    clients.get(h) matches Some(c) && c.state.alive
}

/// A client is available, or not.
pub open spec fn with_alive(clients: ManagerView, h: ClientHandle, alive: bool) -> ManagerView {
    match clients.get(h) {
        Some(c) => clients.set_state(h, StateView { alive, ..c.state }),
        None => clients,
    }
}

/// A client's build is known.
pub open spec fn with_commit(
    clients: ManagerView,
    h: ClientHandle,
    peer_commit: Option<[u8; 8]>,
) -> ManagerView {
    match clients.get(h) {
        Some(c) => clients.set_state(h, StateView { peer_commit, ..c.state }),
        None => clients,
    }
}

/// A client's connection comes from an address. It counts as available only
/// once it says so.
pub open spec fn bound(clients: ManagerView, h: ClientHandle, addr: SocketAddr) -> ManagerView {
    match clients.get(h) {
        Some(c) => clients.set_state(
            h,
            StateView { active_addr: Some(addr), alive: false, ..c.state },
        ),
        None => clients,
    }
}

/// A client has no connection.
pub open spec fn unbound(clients: ManagerView, h: ClientHandle) -> ManagerView {
    match clients.get(h) {
        Some(c) => clients.set_state(
            h,
            StateView { active_addr: None, alive: false, peer_commit: None, ..c.state },
        ),
        None => clients,
    }
}

/// What is asked of input capture.
#[derive(Debug)]
pub enum CaptureRequest {
    /// release the capture
    Release,
    /// put up a barrier
    Create(ClientHandle, Position, CaptureType),
    /// take down a barrier
    Destroy(ClientHandle),
    /// capture again
    Reenable,
    /// allow or stop capturing
    SetEnabled(bool),
    /// change the keys that release the capture
    SetReleaseBind(Vec<u32>),
    /// change the listen port
    ChangePort(u16),
    /// accept devices
    StartListening(u16),
    /// accept no more devices
    StopListening,
}

/// What a request comes to.
#[derive(Clone, Copy, Debug, PartialEq, Eq, Structural)]
pub enum RequestStep {
    /// nothing more
    Done,
    /// begin to capture
    BeginCapture,
    /// end the capture, having released it
    EndCapture,
    /// release the capture
    ReleaseCapture,
    /// have the backend put up a barrier
    BackendCreate(ClientHandle, Position),
    /// have the backend take down a barrier
    BackendDestroy(ClientHandle),
    /// have the listener move to another port and tell the outcome
    MoveListener(u16),
    /// tell the service that the port changed: there is no listener to move
    PortTaken(u16),
    /// create the listener
    CreateListener(u16),
    /// close the listener
    CloseListener,
}

impl CaptureView {
    /// After a request.
    pub open spec fn after_request(self, r: CaptureRequest, capturing: bool) -> CaptureView {
        match r {
            CaptureRequest::Reenable => if capturing {
                self
            } else {
                CaptureView { enabled: true, ..self }
            },
            CaptureRequest::SetEnabled(on) => if on == capturing {
                self
            } else {
                CaptureView { enabled: on, ..self }
            },
            CaptureRequest::Create(h, p, t) => CaptureView {
                captures: self.captures.push((h, p, t)),
                ..self
            },
            CaptureRequest::Destroy(h) => CaptureView {
                captures: without(self.captures, h),
                ..self
            },
            CaptureRequest::SetReleaseBind(keys) => CaptureView { release_bind: keys@, ..self },
            CaptureRequest::StopListening => CaptureView { listening: false, ..self },
            _ => self,
        }
    }

    /// What a request comes to. The barriers are noted whether or not input
    /// is captured, and reach the backend where it is.
    pub open spec fn request_step(self, r: CaptureRequest, capturing: bool) -> RequestStep {
        match r {
            CaptureRequest::Reenable => if capturing {
                RequestStep::Done
            } else {
                RequestStep::BeginCapture
            },
            CaptureRequest::SetEnabled(on) => if on == capturing {
                RequestStep::Done
            } else if on {
                RequestStep::BeginCapture
            } else {
                RequestStep::EndCapture
            },
            CaptureRequest::Release => if capturing {
                RequestStep::ReleaseCapture
            } else {
                RequestStep::Done
            },
            CaptureRequest::Create(h, p, t) => if capturing {
                RequestStep::BackendCreate(h, p)
            } else {
                RequestStep::Done
            },
            CaptureRequest::Destroy(h) => if capturing {
                RequestStep::BackendDestroy(h)
            } else {
                RequestStep::Done
            },
            CaptureRequest::SetReleaseBind(_) => RequestStep::Done,
            CaptureRequest::ChangePort(port) => if self.listening {
                RequestStep::MoveListener(port)
            } else {
                RequestStep::PortTaken(port)
            },
            CaptureRequest::StartListening(port) => if self.listening {
                RequestStep::Done
            } else {
                RequestStep::CreateListener(port)
            },
            CaptureRequest::StopListening => if self.listening {
                RequestStep::CloseListener
            } else {
                RequestStep::Done
            },
        }
    }
}

/// Input capture.
pub struct CaptureTask {
    active_client: Option<ClientHandle>,
    captures: Vec<Barrier>,
    listening: bool,
    enabled: bool,
    rejected: TextMap<u64>,
    release_bind: Vec<u32>,
    state: State,
    last_log_ms: Option<u64>,
}

impl View for CaptureTask {
    type V = CaptureView;

    closed spec fn view(&self) -> CaptureView {
        CaptureView {
            active_client: self.active_client,
            captures: self.captures@,
            listening: self.listening,
            enabled: self.enabled,
            rejected: self.rejected@,
            release_bind: self.release_bind@,
            state: self.state,
            last_log_ms: self.last_log_ms,
        }
    }
}

/// What a connection's event comes to while input is captured.
#[derive(Debug)]
pub enum SessionStep {
    /// these actions
    Act(Vec<CaptureAction>),
    /// the capture is released
    Release,
}

/// What a connection's event comes to while input is captured, as a value.
pub enum SessionStepView {
    Act(Seq<CaptureActionView>),
    Release,
}

impl View for SessionStep {
    type V = SessionStepView;

    open spec fn view(&self) -> SessionStepView {
        match *self {
            SessionStep::Act(actions) => SessionStepView::Act(capture_views(actions@)),
            SessionStep::Release => SessionStepView::Release,
        }
    }
}

impl CaptureView {
    /// After a connection's event: when a device was turned away is noted.
    pub open spec fn heard(self, event: ListenEvent, now_ms: u64) -> CaptureView {
        match event {
            ListenEvent::Rejected { fingerprint } => CaptureView {
                rejected: self.rejected.insert(fingerprint@, now_ms),
                ..self
            },
            _ => self,
        }
    }
}

/// A connection's event while input is captured: what becomes of the capture
/// and of the clients, and what is done. The entered client's answer begins
/// the sending of input, and its leaving ends the capture.
pub open spec fn session_step(
    v: CaptureView,
    clients: ManagerView,
    event: ListenEvent,
    now_ms: u64,
    commit: [u8; 8],
    w: CaptureView,
    clients2: ManagerView,
    step: SessionStepView,
) -> bool {
    match event {
        ListenEvent::Msg { event: ProtoEvent::Ack(_), addr } => {
            &&& step == SessionStepView::Act(seq![])
            &&& clients2 == clients
            &&& w == if own_addr(v, clients, addr) {
                CaptureView { state: State::Sending, ..v }
            } else {
                v
            }
        },
        ListenEvent::Msg { event: ProtoEvent::Leave(_), addr } => {
            &&& step == if own_addr(v, clients, addr) {
                SessionStepView::Release
            } else {
                SessionStepView::Act(seq![])
            }
            &&& clients2 == clients
            &&& w == v
        },
        _ => {
            &&& step matches SessionStepView::Act(actions) && listen_step(
                v,
                clients,
                event,
                now_ms,
                commit,
                clients2,
                actions,
            )
            &&& w == v.heard(event, now_ms)
        },
    }
}

impl CaptureTask {
    /// Input capture before anything happened.
    pub fn new(listening: bool, enabled: bool, release_bind: Vec<u32>) -> (t: CaptureTask)
        ensures
            t@ == (CaptureView {
                active_client: None,
                captures: seq![],
                listening,
                enabled,
                rejected: Map::empty(),
                release_bind: release_bind@,
                state: State::WaitingForAck,
                last_log_ms: None,
            }),
    {
        let t = CaptureTask {
            active_client: None,
            captures: Vec::new(),
            listening,
            enabled,
            rejected: TextMap::new(),
            release_bind,
            state: State::WaitingForAck,
            last_log_ms: None,
        };
        assert(t@.captures =~= seq![]);
        t
    }

    /// Whether capturing is wanted.
    pub fn enabled(&self) -> (b: bool)
        ensures
            b == self@.enabled,
    {
        self.enabled
    }

    /// Whether a client is entered.
    pub fn has_active_client(&self) -> (b: bool)
        ensures
            b == (self@.active_client is Some),
    {
        self.active_client.is_some()
    }

    /// The keys that release the capture.
    pub fn release_bind(&self) -> (k: &Vec<u32>)
        ensures
            k@ == self@.release_bind,
    {
        &self.release_bind
    }

    /// The barriers to put up when capturing begins.
    pub fn barriers(&self) -> (b: &Vec<Barrier>)
        ensures
            b@ == self@.captures,
    {
        &self.captures
    }

    /// Notes that capturing ended.
    pub fn capture_ended(&mut self)
        ensures
            final(self)@ == (CaptureView { enabled: false, ..old(self)@ }),
    {
        self.enabled = false;
    }

    /// Reacts to a connection's event: pairs devices, notes who is available,
    /// and passes on what the service wants to know.
    pub fn handle_listen_event(
        &mut self,
        clients: &mut ClientManager,
        event: ListenEvent,
        now_ms: u64,
        commit: [u8; 8],
    ) -> (actions: Vec<CaptureAction>)
        ensures
            listen_step(
                old(self)@,
                old(clients)@,
                event,
                now_ms,
                commit,
                final(clients)@,
                capture_views(actions@),
            ),
            final(self)@ == old(self)@.heard(event, now_ms),
    {
        match event {
            ListenEvent::Accept { addr, fingerprint } => {
                match clients.get_client_by_fingerprint(fingerprint.as_str()) {
                    Some(handle) => {
                        clients.set_active_addr(handle, Some(addr));
                        clients.set_alive(handle, false);
                        assert(clients@.slots =~= bound(old(clients)@, handle, addr).slots);
                        one_action(CaptureAction::Tell(ICaptureEvent::ClientStateChanged(handle)))
                    },
                    None => {
                        clients.park(fingerprint.clone(), addr);
                        one_action(
                            CaptureAction::Tell(
                                ICaptureEvent::DeviceConnected { addr, fingerprint },
                            ),
                        )
                    },
                }
            },
            ListenEvent::Rejected { fingerprint } => {
                let report: bool = match self.rejected.get(fingerprint.as_str()) {
                    Some(last) => now_ms >= *last && now_ms - *last >= REJECT_QUIET_MS,
                    None => true,
                };
                self.rejected.insert(fingerprint.clone(), now_ms);
                if report {
                    one_action(
                        CaptureAction::Tell(ICaptureEvent::ConnectionAttempt { fingerprint }),
                    )
                } else {
                    no_actions()
                }
            },
            ListenEvent::Disconnected { addr } => {
                if let Some(handle) = clients.get_client_by_active_addr(addr) {
                    clients.set_active_addr(handle, None);
                    clients.set_alive(handle, false);
                    clients.set_peer_commit(handle, None);
                    assert(clients@.slots =~= unbound(old(clients)@, handle).slots);
                    one_action(CaptureAction::Tell(ICaptureEvent::ClientStateChanged(handle)))
                } else {
                    match clients.unpark_addr(addr) {
                        Some(f) => {
                            assert(old(clients)@.parked.contains_key(f@));
                            assert(left_waiting(old(clients)@, addr, clients@));
                            one_action(
                                CaptureAction::Tell(ICaptureEvent::DeviceDisconnected { addr }),
                            )
                        },
                        None => no_actions(),
                    }
                }
            },
            ListenEvent::Msg { event, addr } => match event {
                ProtoEvent::Pong(emulation_active) => {
                    match clients.get_client_by_active_addr(addr) {
                        Some(handle) => {
                            let differs: bool = clients.alive(handle) != emulation_active;
                            clients.set_alive(handle, emulation_active);
                            if differs {
                                one_action(
                                    CaptureAction::Tell(ICaptureEvent::ClientStateChanged(handle)),
                                )
                            } else {
                                no_actions()
                            }
                        },
                        None => no_actions(),
                    }
                },
                ProtoEvent::Hello { commit: theirs } => {
                    let mut actions = if self.listening {
                        one_action(CaptureAction::Reply(addr, ProtoEvent::Hello { commit }))
                    } else {
                        no_actions()
                    };
                    let ghost before = capture_views(actions@);
                    if let Some(handle) = clients.get_client_by_active_addr(addr) {
                        clients.set_peer_commit(handle, Some(theirs));
                        let told = CaptureAction::Tell(ICaptureEvent::ClientStateChanged(handle));
                        actions.push(told);
                        assert(capture_views(actions@) =~= before.push(changed(handle)));
                    }
                    actions
                },
                _ => no_actions(),
            },
            ListenEvent::AudioStream { addr, active, latency_ms, packets_lost, level } =>
                one_action(
                CaptureAction::Tell(
                    ICaptureEvent::AudioStream { addr, active, latency_ms, packets_lost, level },
                ),
            ),
        }
    }

    /// Whether an address is that of the entered client.
    fn is_active_addr(&self, clients: &ClientManager, addr: SocketAddr) -> (b: bool)
        ensures
            b == own_addr(self@, clients@, addr),
    {
        match self.active_client {
            Some(active) => match clients.get_client_by_active_addr(addr) {
                Some(h) => h == active,
                None => false,
            },
            None => false,
        }
    }

    /// Reacts to a connection's event while input is captured: the entered
    /// client's answer begins the sending of input, its leaving ends the
    /// capture, and everything else is as without a capture.
    pub fn handle_session_event(
        &mut self,
        clients: &mut ClientManager,
        event: ListenEvent,
        now_ms: u64,
        commit: [u8; 8],
    ) -> (step: SessionStep)
        ensures
            session_step(
                old(self)@,
                old(clients)@,
                event,
                now_ms,
                commit,
                final(self)@,
                final(clients)@,
                step@,
            ),
    {
        match event {
            ListenEvent::Msg { event: ProtoEvent::Ack(_), addr } => {
                if self.is_active_addr(clients, addr) {
                    self.state = State::Sending;
                }
                SessionStep::Act(no_actions())
            },
            ListenEvent::Msg { event: ProtoEvent::Leave(_), addr } => {
                if self.is_active_addr(clients, addr) {
                    SessionStep::Release
                } else {
                    SessionStep::Act(no_actions())
                }
            },
            event => SessionStep::Act(self.handle_listen_event(clients, event, now_ms, commit)),
        }
    }

    /// The place of a barrier.
    fn find_barrier(&self, handle: ClientHandle) -> (r: Option<usize>)
        ensures
            match r {
                Some(i) => i < self@.captures.len() && barrier_at(self@.captures, handle) == Some(
                    i as int,
                ),
                None => barrier_at(self@.captures, handle) is None,
            },
    {
        let mut r: Option<usize> = None;
        let mut i: usize = 0;
        let ghost all = self.captures@;
        while i < self.captures.len()
            invariant
                i <= self.captures@.len(),
                all == self.captures@,
                match r {
                    Some(k) => k < i && barrier_at(all.take(i as int), handle) == Some(k as int),
                    None => barrier_at(all.take(i as int), handle) is None,
                },
            decreases self.captures@.len() - i,
        {
            assert(all.take(i + 1).drop_last() =~= all.take(i as int));
            if r.is_none() && self.captures[i].0 == handle {
                r = Some(i);
            }
            i = i + 1;
        }
        assert(all.take(i as int) =~= all);
        r
    }

    /// Whether a normal barrier stands at an edge.
    fn is_default_capture_at(&self, pos: Position) -> (b: bool)
        ensures
            b == default_at(self@.captures, pos),
    {
        let mut i: usize = 0;
        while i < self.captures.len()
            invariant
                i <= self.captures@.len(),
                forall|j: int|
                    0 <= j < i ==> !((#[trigger] self.captures@[j]).1 == pos && self.captures@[j].2
                        == CaptureType::Default),
            decreases self.captures@.len() - i,
        {
            if self.captures[i].1 == pos && self.captures[i].2 == CaptureType::Default {
                assert(self.captures@[i as int].1 == pos);
                return true;
            }
            i = i + 1;
        }
        false
    }

    /// Whether a barrier stands under a handle.
    pub fn has_barrier(&self, handle: ClientHandle) -> (b: bool)
        ensures
            b == (barrier_at(self@.captures, handle) is Some),
    {
        self.find_barrier(handle).is_some()
    }

    /// Reacts to the capture backend. `bind_pressed` tells whether the keys
    /// that release the capture are held.
    pub fn handle_capture_event(
        &mut self,
        handle: ClientHandle,
        event: CaptureEvent,
        bind_pressed: bool,
    ) -> (r: (Vec<ICaptureEvent>, CaptureNext))
        requires
            bind_pressed || barrier_at(old(self)@.captures, handle) is Some,
        ensures
            final(self)@ == old(self)@.after_backend(handle, event, bind_pressed),
            r.0@ == old(self)@.told_after_backend(handle, event, bind_pressed),
            r.1 == old(self)@.next_after_backend(handle, event, bind_pressed),
    {
        let mut told: Vec<ICaptureEvent> = Vec::new();
        if bind_pressed {
            assert(told@ =~= seq![]);
            return (told, CaptureNext::ReleaseCapture);
        }
        let begin: bool = match event {
            CaptureEvent::Begin => true,
            CaptureEvent::Input(_) => false,
        };
        if begin {
            told.push(ICaptureEvent::CaptureBegin(handle));
        }
        let i = match self.find_barrier(handle) {
            Some(i) => i,
            None => return (told, CaptureNext::Nothing),
        };
        let pos = self.captures[i].1;
        if self.captures[i].2 == CaptureType::EnterOnly {
            assert(told@ =~= old(self)@.told_after_backend(handle, event, bind_pressed));
            if !self.is_default_capture_at(pos) {
                return (told, CaptureNext::BackendRelease);
            }
            return (told, CaptureNext::Nothing);
        }
        let entered: bool = match self.active_client {
            Some(active) => active == handle,
            None => false,
        };
        let enter = ProtoEvent::Enter(to_proto_pos(pos.opposite()));
        let sending = match event {
            CaptureEvent::Begin => enter,
            CaptureEvent::Input(e) => match self.state {
                State::WaitingForAck => enter,
                State::Sending => ProtoEvent::Input(e),
            },
        };
        if begin && !entered {
            self.state = State::WaitingForAck;
            self.active_client = Some(handle);
            told.push(ICaptureEvent::ClientEntered(handle));
        }
        assert(told@ =~= old(self)@.told_after_backend(handle, event, bind_pressed));
        (told, CaptureNext::Send(handle, sending))
    }

    /// Notes that a send failed, after which the backend lets go. Tells
    /// whether this is to be logged.
    pub fn send_failed(&mut self, now_ms: u64) -> (log: bool)
        ensures
            log == (match old(self)@.last_log_ms {
                Some(last) => now_ms > last + SEND_LOG_QUIET_MS,
                None => true,
            }),
            final(self)@ == if log {
                CaptureView { last_log_ms: Some(now_ms), ..old(self)@ }
            } else {
                old(self)@
            },
    {
        let log: bool = match self.last_log_ms {
            Some(last) => now_ms >= last && now_ms - last > SEND_LOG_QUIET_MS,
            None => true,
        };
        if log {
            self.last_log_ms = Some(now_ms);
        }
        log
    }

    /// Releases the capture. `pressed` are the keys that are still held: they
    /// were sent as pressed, and without this would stay so at the client.
    pub fn release_capture(&mut self, pressed: &Vec<u32>) -> (actions: Vec<CaptureAction>)
        ensures
            capture_views(actions@) == old(self)@.release_actions(pressed@),
            final(self)@ == (CaptureView { active_client: None, ..old(self)@ }),
    {
        let mut actions = no_actions();
        if let Some(handle) = self.active_client {
            self.active_client = None;
            let ghost ups = pressed@.map_values(|k: u32| key_up(handle, k));
            let mut i: usize = 0;
            while i < pressed.len()
                invariant
                    i <= pressed@.len(),
                    ups == pressed@.map_values(|k: u32| key_up(handle, k)),
                    capture_views(actions@) =~= ups.take(i as int),
                decreases pressed@.len() - i,
            {
                let ghost before = capture_views(actions@);
                actions.push(
                    CaptureAction::Send(
                        handle,
                        ProtoEvent::Input(
                            InputEvent::Keyboard(
                                KeyboardEvent::Key { time: 0, key: pressed[i], state: 0 },
                            ),
                        ),
                    ),
                );
                assert(capture_views(actions@) =~= before.push(ups[i as int]));
                assert(ups.take(i + 1) =~= ups.take(i as int).push(ups[i as int]));
                i = i + 1;
            }
            assert(ups.take(i as int) =~= ups);
            actions.push(
                CaptureAction::Send(
                    handle,
                    ProtoEvent::Input(
                        InputEvent::Keyboard(
                            KeyboardEvent::Modifiers { depressed: 0, latched: 0, locked: 0, group: 0 },
                        ),
                    ),
                ),
            );
            actions.push(CaptureAction::Send(handle, ProtoEvent::Leave(0)));
        }
        actions.push(CaptureAction::BackendRelease);
        assert(capture_views(actions@) =~= old(self)@.release_actions(pressed@));
        actions
    }

    /// Takes down the barriers of a handle.
    fn remove_capture(&mut self, handle: ClientHandle)
        ensures
            final(self)@ == (CaptureView {
                captures: without(old(self)@.captures, handle),
                ..old(self)@
            }),
    {
        let mut kept: Vec<Barrier> = Vec::new();
        let ghost all = self.captures@;
        let mut i: usize = 0;
        assert(all.take(0) =~= seq![]);
        assert(kept@ =~= without(all.take(0), handle));
        while i < self.captures.len()
            invariant
                i <= self.captures@.len(),
                *self == *old(self),
                all == self.captures@,
                kept@ == without(all.take(i as int), handle),
            decreases self.captures@.len() - i,
        {
            assert(all.take(i + 1).drop_last() =~= all.take(i as int));
            if self.captures[i].0 != handle {
                kept.push(self.captures[i]);
            }
            i = i + 1;
        }
        assert(all.take(i as int) =~= all);
        self.captures = kept;
    }

    /// Does what is asked. `capturing` tells whether input is captured.
    pub fn handle_request(&mut self, request: CaptureRequest, capturing: bool) -> (step: RequestStep)
        ensures
            final(self)@ == old(self)@.after_request(request, capturing),
            step == old(self)@.request_step(request, capturing),
    {
        match request {
            CaptureRequest::Reenable => {
                if capturing {
                    RequestStep::Done
                } else {
                    self.enabled = true;
                    RequestStep::BeginCapture
                }
            },
            CaptureRequest::SetEnabled(on) => {
                if on == capturing {
                    RequestStep::Done
                } else {
                    self.enabled = on;
                    if on {
                        RequestStep::BeginCapture
                    } else {
                        RequestStep::EndCapture
                    }
                }
            },
            CaptureRequest::Release => {
                if capturing {
                    RequestStep::ReleaseCapture
                } else {
                    RequestStep::Done
                }
            },
            CaptureRequest::Create(h, p, t) => {
                self.captures.push((h, p, t));
                if capturing {
                    RequestStep::BackendCreate(h, p)
                } else {
                    RequestStep::Done
                }
            },
            CaptureRequest::Destroy(h) => {
                self.remove_capture(h);
                if capturing {
                    RequestStep::BackendDestroy(h)
                } else {
                    RequestStep::Done
                }
            },
            CaptureRequest::SetReleaseBind(keys) => {
                self.release_bind = keys;
                RequestStep::Done
            },
            CaptureRequest::ChangePort(port) => {
                if self.listening {
                    RequestStep::MoveListener(port)
                } else {
                    RequestStep::PortTaken(port)
                }
            },
            CaptureRequest::StartListening(port) => {
                if self.listening {
                    RequestStep::Done
                } else {
                    RequestStep::CreateListener(port)
                }
            },
            CaptureRequest::StopListening => {
                if self.listening {
                    self.listening = false;
                    RequestStep::CloseListener
                } else {
                    RequestStep::Done
                }
            },
        }
    }

    /// Notes whether the listener could be created. Gives what the service is
    /// told.
    pub fn listener_created(&mut self, port: u16, error: Option<String>) -> (e: ICaptureEvent)
        ensures
            e@ == (match error {
                Some(e) => ICaptureEventView::PortChanged(Err(e@)),
                None => ICaptureEventView::PortChanged(Ok(port)),
            }),
            final(self)@ == if error is Some {
                old(self)@
            } else {
                CaptureView { listening: true, ..old(self)@ }
            },
    {
        match error {
            Some(e) => ICaptureEvent::PortChanged(Err(e)),
            None => {
                self.listening = true;
                ICaptureEvent::PortChanged(Ok(port))
            },
        }
    }
}

/// A client is sent input only after it answered: between a crossing that
/// enters it and its answer, all that is sent is the crossing.
pub proof fn lemma_no_input_before_the_answer(
    v: CaptureView,
    h: ClientHandle,
    e: CaptureEvent,
    later: CaptureEvent,
)
    requires
        barrier_at(v.captures, h) is Some,
        v.kind(h) == CaptureType::Default,
        v.enters(h, e),
    ensures
        ({
            let w = v.after_backend(h, e, false);
            let enter = ProtoEvent::Enter(proto_pos(opposite(v.edge(h))));
            &&& w.active_client == Some(h)
            &&& v.next_after_backend(h, e, false) == CaptureNext::Send(h, enter)
            &&& w.next_after_backend(h, later, false) == CaptureNext::Send(h, enter)
            &&& w.after_backend(h, later, false) == w
        }),
{
}

/// Releasing leaves no key held: the keys that were held come up, in order,
/// before the client is left, and the next crossing enters a client anew.
pub proof fn lemma_release_lifts_every_key(v: CaptureView, pressed: Seq<u32>, i: int, h: ClientHandle)
    requires
        v.active_client == Some(h),
        0 <= i < pressed.len(),
    ensures
        v.release_actions(pressed)[i] == key_up(h, pressed[i]),
        v.release_actions(pressed)[pressed.len() as int] == CaptureActionView::Send(
            h,
            no_modifiers(),
        ),
        v.release_actions(pressed)[pressed.len() as int + 1] == CaptureActionView::Send(
            h,
            ProtoEvent::Leave(0),
        ),
        (CaptureView { active_client: None, ..v }).enters(h, CaptureEvent::Begin),
{
}

/// A device that keeps trying without a pause is reported once.
pub proof fn lemma_rejections_are_debounced(
    rejected: Map<Seq<char>, u64>,
    f: Seq<char>,
    first_ms: u64,
    next_ms: u64,
)
    requires
        first_ms <= next_ms,
    ensures
        reports_rejection(rejected.insert(f, first_ms), f, next_ms) <==> next_ms - first_ms
            >= REJECT_QUIET_MS,
{
}

/// What a connection's event changes of the clients leaves who is paired with
/// whom, and at which edge, as it was.
pub proof fn lemma_connections_keep_pairings(
    v: CaptureView,
    clients: ManagerView,
    event: ListenEvent,
    now_ms: u64,
    commit: [u8; 8],
    clients2: ManagerView,
    actions: Seq<CaptureActionView>,
    h: ClientHandle,
)
    requires
        listen_step(v, clients, event, now_ms, commit, clients2, actions),
    ensures
        clients2.get(h) is Some <==> clients.get(h) is Some,
        clients.get(h) matches Some(c) ==> clients2.get(h)->0.config == c.config
            && clients2.get(h)->0.state.active == c.state.active,
{
}

} // verus!
