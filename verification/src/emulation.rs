//! Input emulation: what is done with input from the server.

pub mod laws;

use crate::connect::{ConnectionEvent, ServerTarget, TargetView};
use crate::ipc::Position;
use crate::net::{AddrMap, SocketAddr};
use crate::proto;
use crate::proto::{InputEvent, ProtoEvent};
use crate::text::opt_view;
use vstd::prelude::*;

verus! {

/// What input emulation tells the service.
#[derive(Debug)]
pub enum EmulationEvent {
    /// connected to the server
    Connected { addr: SocketAddr, fingerprint: String },
    /// a pointer entered this screen
    Entered { addr: SocketAddr, pos: Position, fingerprint: String },
    /// the connection is gone
    Disconnected { addr: SocketAddr },
    /// emulation was disabled
    EmulationDisabled,
    /// emulation was enabled
    EmulationEnabled,
    /// the capture should be released
    ReleaseNotify,
    /// result of a connection test
    ConnectionTested { request_id: u64, error: Option<String> },
}

/// What input emulation tells the service, as a value.
pub enum EmulationEventView {
    Connected { addr: SocketAddr, fingerprint: Seq<char> },
    Entered { addr: SocketAddr, pos: Position, fingerprint: Seq<char> },
    Disconnected { addr: SocketAddr },
    EmulationDisabled,
    EmulationEnabled,
    ReleaseNotify,
    ConnectionTested { request_id: u64, error: Option<Seq<char>> },
}

impl View for EmulationEvent {
    type V = EmulationEventView;

    open spec fn view(&self) -> EmulationEventView {
        match self {
            EmulationEvent::Connected { addr, fingerprint } => EmulationEventView::Connected {
                addr: *addr,
                fingerprint: fingerprint@,
            },
            EmulationEvent::Entered { addr, pos, fingerprint } => EmulationEventView::Entered {
                addr: *addr,
                pos: *pos,
                fingerprint: fingerprint@,
            },
            EmulationEvent::Disconnected { addr } => EmulationEventView::Disconnected {
                addr: *addr,
            },
            EmulationEvent::EmulationDisabled => EmulationEventView::EmulationDisabled,
            EmulationEvent::EmulationEnabled => EmulationEventView::EmulationEnabled,
            EmulationEvent::ReleaseNotify => EmulationEventView::ReleaseNotify,
            EmulationEvent::ConnectionTested { request_id, error } =>
                EmulationEventView::ConnectionTested {
                request_id: *request_id,
                error: opt_view(*error),
            },
        }
    }
}

/// An edge as the service knows it.
pub open spec fn ipc_pos(pos: proto::Position) -> Position {
    match pos {
        proto::Position::Left => Position::Left,
        proto::Position::Right => Position::Right,
        proto::Position::Top => Position::Top,
        proto::Position::Bottom => Position::Bottom,
    }
}

/// An edge as the service knows it.
pub fn to_ipc_pos(pos: proto::Position) -> (p: Position)
    ensures
        p == ipc_pos(pos),
{
    match pos {
        proto::Position::Left => Position::Left,
        proto::Position::Right => Position::Right,
        proto::Position::Top => Position::Top,
        proto::Position::Bottom => Position::Bottom,
    }
}

/// An edge goes over the wire unchanged.
pub proof fn lemma_edge_roundtrip(pos: Position)
    ensures
        ipc_pos(crate::capture::proto_pos(pos)) == pos,
{
}

/// What is asked of input emulation.
#[derive(Debug)]
pub enum EmulationRequest {
    /// emulate again
    Reenable,
    /// allow or stop emulating
    SetEnabled(bool),
    /// tell the server that the pointer left this screen
    Release(SocketAddr),
    /// dial a server, or none
    SetServer(Option<ServerTarget>),
    /// see whether a server answers
    TestConnection { request_id: u64, hostname: String, port: u16 },
    /// end
    Terminate,
}

/// What is asked of the task that emulates.
#[derive(Clone, Copy, Debug, PartialEq, Eq)]
pub enum ProxyRequest {
    /// emulate input
    Input(InputEvent, SocketAddr),
    /// forget who sent input, and release the keys it holds
    Remove(SocketAddr),
    /// end
    Terminate,
    /// emulate again
    Reenable,
    /// allow or stop emulating
    SetEnabled(bool),
}

/// Work for the surrounding program.
#[derive(Debug)]
pub enum DialWork {
    /// tell the service
    Tell(EmulationEvent),
    /// answer over the connection to an address
    Reply(SocketAddr, ProtoEvent),
    /// ask the task that emulates
    Proxy(ProxyRequest),
    /// close the connection to an address
    Close(SocketAddr),
    /// dial a server, or none
    SetServer(Option<ServerTarget>),
    /// see whether a server answers
    TestConnection { request_id: u64, hostname: String, port: u16 },
    /// end
    Terminate,
}

/// Work for the surrounding program, as a value.
pub enum DialWorkView {
    Tell(EmulationEventView),
    Reply(SocketAddr, ProtoEvent),
    Proxy(ProxyRequest),
    Close(SocketAddr),
    SetServer(Option<TargetView>),
    TestConnection { request_id: u64, hostname: Seq<char>, port: u16 },
    Terminate,
}

impl View for DialWork {
    type V = DialWorkView;

    open spec fn view(&self) -> DialWorkView {
        match self {
            DialWork::Tell(e) => DialWorkView::Tell(e@),
            DialWork::Reply(a, e) => DialWorkView::Reply(*a, *e),
            DialWork::Proxy(r) => DialWorkView::Proxy(*r),
            DialWork::Close(a) => DialWorkView::Close(*a),
            DialWork::SetServer(t) => DialWorkView::SetServer(crate::connect::opt_target(*t)),
            DialWork::TestConnection { request_id, hostname, port } =>
                DialWorkView::TestConnection {
                request_id: *request_id,
                hostname: hostname@,
                port: *port,
            },
            DialWork::Terminate => DialWorkView::Terminate,
        }
    }
}

/// The work of a list, as values.
pub open spec fn work_views(work: Seq<DialWork>) -> Seq<DialWorkView> {
    work.map_values(|w: DialWork| w@)
}

/// A server that was silent for longer than this is gone, in milliseconds.
/// It is well above the server's own probing, so that a slow audio stream
/// does not look like a dead server.
pub const PEER_IDLE_TIMEOUT_MS: u64 = 45_000;

/// What is known of the connection, to the task that keeps it.
pub struct DialView {
    /// when something was heard from an address last
    pub last_response: Map<SocketAddr, u64>,
    /// input is emulated
    pub emulation_active: bool,
}

impl DialView {
    /// Something was heard.
    pub open spec fn heard(self, addr: SocketAddr, now_ms: u64) -> DialView {
        DialView { last_response: self.last_response.insert(addr, now_ms), ..self }
    }

    /// After an event of the connection.
    pub open spec fn after(self, e: ConnectionEvent, now_ms: u64) -> DialView {
        match e {
            ConnectionEvent::Message { addr, .. } => self.heard(addr, now_ms),
            ConnectionEvent::PeerAlive { addr } => self.heard(addr, now_ms),
            ConnectionEvent::Connected { addr, .. } => self.heard(addr, now_ms),
            ConnectionEvent::Disconnected { addr } => DialView {
                last_response: self.last_response.remove(addr),
                ..self
            },
        }
    }

    /// What an event of the connection asks for. `fingerprint` is that of the
    /// server, where the connection still has one. A pointer that enters is
    /// acknowledged, input is emulated while emulation is on, and a probe is
    /// answered with whether it is.
    pub open spec fn work(
        self,
        e: ConnectionEvent,
        fingerprint: Option<Seq<char>>,
    ) -> Seq<DialWorkView> {
        match e {
            ConnectionEvent::Message { addr, event } => match event {
                ProtoEvent::Enter(pos) => match fingerprint {
                    Some(f) => seq![
                        DialWorkView::Tell(EmulationEventView::ReleaseNotify),
                        DialWorkView::Reply(addr, ProtoEvent::Ack(0)),
                        DialWorkView::Tell(
                            EmulationEventView::Entered { addr, pos: ipc_pos(pos), fingerprint: f },
                        ),
                    ],
                    None => seq![],
                },
                ProtoEvent::Leave(_) => seq![
                    DialWorkView::Proxy(ProxyRequest::Remove(addr)),
                    DialWorkView::Reply(addr, ProtoEvent::Ack(0)),
                ],
                ProtoEvent::Input(input) => if self.emulation_active {
                    seq![DialWorkView::Proxy(ProxyRequest::Input(input, addr))]
                } else {
                    seq![]
                },
                ProtoEvent::Ping => seq![
                    DialWorkView::Reply(addr, ProtoEvent::Pong(self.emulation_active)),
                ],
                _ => seq![],
            },
            ConnectionEvent::PeerAlive { .. } => seq![],
            ConnectionEvent::Connected { addr, fingerprint } => seq![
                DialWorkView::Tell(
                    EmulationEventView::Connected { addr, fingerprint: fingerprint@ },
                ),
            ],
            ConnectionEvent::Disconnected { addr } => seq![
                DialWorkView::Proxy(ProxyRequest::Remove(addr)),
                DialWorkView::Tell(EmulationEventView::Disconnected { addr }),
            ],
        }
    }

    /// Nothing was heard from an address for long.
    pub open spec fn idle(self, addr: SocketAddr, now_ms: u64) -> bool {
        self.last_response.contains_key(addr) && now_ms > self.last_response[addr]
            + PEER_IDLE_TIMEOUT_MS
    }
}

/// What is done about a server that was silent for long: the keys it holds
/// are released, the connection is closed, and the service is told.
pub open spec fn idle_work(addr: SocketAddr) -> Seq<DialWorkView> {
    seq![
        DialWorkView::Proxy(ProxyRequest::Remove(addr)),
        DialWorkView::Close(addr),
        DialWorkView::Tell(EmulationEventView::Disconnected { addr }),
    ]
}

/// What is done about several servers that were silent for long.
pub open spec fn idle_works(addrs: Seq<SocketAddr>) -> Seq<DialWorkView>
    decreases addrs.len(),
{
    if addrs.len() == 0 {
        seq![]
    } else {
        idle_works(addrs.drop_last()) + idle_work(addrs.last())
    }
}

/// The task that keeps the connection and passes on what comes over it.
pub struct DialTask {
    last_response: AddrMap,
    emulation_active: bool,
}

impl View for DialTask {
    type V = DialView;

    closed spec fn view(&self) -> DialView {
        DialView {
            last_response: self.last_response@,
            emulation_active: self.emulation_active,
        }
    }
}

/// Appends work.
fn add_work(v: &mut Vec<DialWork>, w: DialWork)
    ensures
        work_views(final(v)@) == work_views(old(v)@).push(w@),
{
    v.push(w);
    assert(work_views(v@) =~= work_views(old(v)@).push(w@));
}

/// No work.
fn no_work() -> (v: Vec<DialWork>)
    ensures
        work_views(v@) == Seq::<DialWorkView>::empty(),
{
    let v: Vec<DialWork> = Vec::new();
    assert(work_views(v@) =~= Seq::<DialWorkView>::empty());
    v
}

impl DialTask {
    /// Nothing was heard, and nothing is emulated.
    pub fn new() -> (t: DialTask)
        ensures
            t@ == (DialView { last_response: Map::empty(), emulation_active: false }),
    {
        DialTask { last_response: AddrMap::new(), emulation_active: false }
    }

    /// Reacts to the connection.
    pub fn handle_connection_event(
        &mut self,
        event: ConnectionEvent,
        fingerprint: Option<String>,
        now_ms: u64,
    ) -> (work: Vec<DialWork>)
        ensures
            final(self)@ == old(self)@.after(event, now_ms),
            work_views(work@) == old(self)@.work(event, opt_view(fingerprint)),
    {
        let mut work = no_work();
        let ghost v = self@;
        let ghost f = opt_view(fingerprint);
        match event {
            ConnectionEvent::Message { addr, event: message } => {
                self.last_response.insert(addr, now_ms);
                match message {
                    ProtoEvent::Enter(pos) => {
                        if let Some(fingerprint) = fingerprint {
                            add_work(&mut work, DialWork::Tell(EmulationEvent::ReleaseNotify));
                            add_work(&mut work, DialWork::Reply(addr, ProtoEvent::Ack(0)));
                            add_work(
                                &mut work,
                                DialWork::Tell(
                                    EmulationEvent::Entered {
                                        addr,
                                        pos: to_ipc_pos(pos),
                                        fingerprint,
                                    },
                                ),
                            );
                        }
                    },
                    ProtoEvent::Leave(_) => {
                        add_work(&mut work, DialWork::Proxy(ProxyRequest::Remove(addr)));
                        add_work(&mut work, DialWork::Reply(addr, ProtoEvent::Ack(0)));
                    },
                    ProtoEvent::Input(input) => {
                        if self.emulation_active {
                            add_work(&mut work, DialWork::Proxy(ProxyRequest::Input(input, addr)));
                        }
                    },
                    ProtoEvent::Ping => {
                        add_work(
                            &mut work,
                            DialWork::Reply(addr, ProtoEvent::Pong(self.emulation_active)),
                        );
                    },
                    _ => {},
                }
            },
            ConnectionEvent::PeerAlive { addr } => {
                self.last_response.insert(addr, now_ms);
            },
            ConnectionEvent::Connected { addr, fingerprint } => {
                self.last_response.insert(addr, now_ms);
                add_work(
                    &mut work,
                    DialWork::Tell(EmulationEvent::Connected { addr, fingerprint }),
                );
            },
            ConnectionEvent::Disconnected { addr } => {
                let _ = self.last_response.remove(addr);
                add_work(&mut work, DialWork::Proxy(ProxyRequest::Remove(addr)));
                add_work(&mut work, DialWork::Tell(EmulationEvent::Disconnected { addr }));
            },
        }
        assert(work_views(work@) =~= v.work(event, f));
        work
    }

    /// Notes what the task that emulates tells, before it is passed on.
    pub fn handle_proxy_event(&mut self, event: &EmulationEvent)
        ensures
            final(self)@ == (DialView {
                emulation_active: match *event {
                    EmulationEvent::EmulationEnabled => true,
                    EmulationEvent::EmulationDisabled => false,
                    _ => old(self)@.emulation_active,
                },
                ..old(self)@
            }),
    {
        match event {
            EmulationEvent::EmulationEnabled => {
                self.emulation_active = true;
            },
            EmulationEvent::EmulationDisabled => {
                self.emulation_active = false;
            },
            _ => {},
        }
    }

    /// Does what is asked.
    pub fn handle_request(&self, request: EmulationRequest) -> (work: DialWork)
        ensures
            work@ == (match request {
                EmulationRequest::Reenable => DialWorkView::Proxy(ProxyRequest::Reenable),
                EmulationRequest::SetEnabled(on) => DialWorkView::Proxy(
                    ProxyRequest::SetEnabled(on),
                ),
                EmulationRequest::Release(addr) => DialWorkView::Reply(addr, ProtoEvent::Leave(0)),
                EmulationRequest::SetServer(t) => DialWorkView::SetServer(
                    crate::connect::opt_target(t),
                ),
                EmulationRequest::TestConnection { request_id, hostname, port } =>
                    DialWorkView::TestConnection { request_id, hostname: hostname@, port },
                EmulationRequest::Terminate => DialWorkView::Terminate,
            }),
    {
        match request {
            EmulationRequest::Reenable => DialWork::Proxy(ProxyRequest::Reenable),
            EmulationRequest::SetEnabled(on) => DialWork::Proxy(ProxyRequest::SetEnabled(on)),
            EmulationRequest::Release(addr) => DialWork::Reply(addr, ProtoEvent::Leave(0)),
            EmulationRequest::SetServer(t) => DialWork::SetServer(t),
            EmulationRequest::TestConnection { request_id, hostname, port } =>
                DialWork::TestConnection { request_id, hostname, port },
            EmulationRequest::Terminate => DialWork::Terminate,
        }
    }

    /// Looks for servers that were silent for long, which is done every few
    /// seconds, and forgets them.
    pub fn tick(&mut self, now_ms: u64) -> (work: Vec<DialWork>)
        ensures
            exists|gone: Seq<SocketAddr>|
                {
                    &&& gone.no_duplicates()
                    &&& forall|a: SocketAddr| #[trigger]
                        gone.contains(a) <==> old(self)@.idle(a, now_ms)
                    &&& work_views(work@) == #[trigger] idle_works(gone)
                },
            final(self)@.emulation_active == old(self)@.emulation_active,
            forall|a: SocketAddr| #[trigger]
                final(self)@.last_response.contains_key(a) <==> old(
                    self,
                )@.last_response.contains_key(a) && !old(self)@.idle(a, now_ms),
            forall|a: SocketAddr| #[trigger]
                final(self)@.last_response.contains_key(a) ==> final(self)@.last_response[a]
                    == old(self)@.last_response[a],
    {
        let limit: u64 = if now_ms > PEER_IDLE_TIMEOUT_MS {
            now_ms - PEER_IDLE_TIMEOUT_MS
        } else {
            0
        };
        let gone = self.last_response.take_below(limit);
        let mut work = no_work();
        let mut i: usize = 0;
        assert(gone@.take(0) =~= seq![]);
        while i < gone.len()
            invariant
                i <= gone@.len(),
                work_views(work@) == idle_works(gone@.take(i as int)),
            decreases gone@.len() - i,
        {
            let ghost before = work_views(work@);
            assert(gone@.take(i + 1).drop_last() =~= gone@.take(i as int));
            add_work(&mut work, DialWork::Proxy(ProxyRequest::Remove(gone[i])));
            add_work(&mut work, DialWork::Close(gone[i]));
            add_work(&mut work, DialWork::Tell(EmulationEvent::Disconnected { addr: gone[i] }));
            assert(work_views(work@) =~= before + idle_work(gone@[i as int]));
            i = i + 1;
        }
        assert(gone@.take(i as int) =~= gone@);
        assert forall|a: SocketAddr| #[trigger] gone@.contains(a) <==> old(self)@.idle(a, now_ms) by {
            assert(old(self)@.last_response.contains_key(a) == old(
                self,
            ).last_response@.contains_key(a));
        }
        work
    }
}

/// Everything that is heard from a server, whatever it is, keeps the
/// connection for another while.
pub proof fn lemma_whatever_is_heard_keeps_the_connection(
    v: DialView,
    e: ConnectionEvent,
    addr: SocketAddr,
    now_ms: u64,
    later_ms: u64,
)
    requires
        match e {
            ConnectionEvent::Message { addr: a, .. } => a == addr,
            ConnectionEvent::PeerAlive { addr: a } => a == addr,
            ConnectionEvent::Connected { addr: a, .. } => a == addr,
            ConnectionEvent::Disconnected { .. } => false,
        },
        later_ms <= now_ms + PEER_IDLE_TIMEOUT_MS,
    ensures
        !v.after(e, now_ms).idle(addr, later_ms),
{
}

/// The work is to emulate input.
pub open spec fn is_input(w: DialWorkView) -> bool {
    match w {
        DialWorkView::Proxy(ProxyRequest::Input(_, _)) => true,
        _ => false,
    }
}

/// Input reaches the task that emulates only while emulation is on, and the
/// server learns from every probe whether it is.
pub proof fn lemma_no_input_while_disabled(
    v: DialView,
    addr: SocketAddr,
    event: ProtoEvent,
    f: Option<Seq<char>>,
)
    requires
        !v.emulation_active,
    ensures
        ({
            let w = v.work(ConnectionEvent::Message { addr, event }, f);
            forall|i: int| 0 <= i < w.len() ==> !is_input(#[trigger] w[i])
        }),
        v.work(ConnectionEvent::Message { addr, event: ProtoEvent::Ping }, f) == seq![
            DialWorkView::Reply(addr, ProtoEvent::Pong(false)),
        ],
{
}

/// What a request to the task that emulates comes to.
#[derive(Clone, Copy, Debug, PartialEq, Eq)]
pub enum EmulateStep {
    /// nothing
    Nothing,
    /// begin to emulate
    Begin,
    /// stop emulating
    Stop,
    /// end the task
    Exit,
    /// emulate input under a handle, which first has to be created where that
    /// is said
    Consume { event: InputEvent, handle: u64, create: bool },
    /// give up a handle, releasing the keys it holds
    Destroy(u64),
}

/// What the task that emulates knows.
pub struct EmulateView {
    /// emulating is wanted
    pub enabled: bool,
    /// the handle of everyone who sent input
    pub handles: Map<SocketAddr, u64>,
    /// the next handle
    pub next_id: u64,
}

impl EmulateView {
    /// After a request.
    pub open spec fn after(self, r: ProxyRequest, emulating: bool) -> EmulateView {
        match r {
            ProxyRequest::Reenable => if emulating {
                self
            } else {
                EmulateView { enabled: true, ..self }
            },
            ProxyRequest::SetEnabled(on) => if on == emulating {
                self
            } else {
                EmulateView { enabled: on, ..self }
            },
            ProxyRequest::Terminate => self,
            ProxyRequest::Input(_, addr) => if !emulating || self.handles.contains_key(addr) {
                self
            } else {
                EmulateView {
                    handles: self.handles.insert(addr, self.next_id),
                    next_id: (self.next_id + 1) as u64,
                    ..self
                }
            },
            ProxyRequest::Remove(addr) => if !emulating {
                self
            } else {
                EmulateView { handles: self.handles.remove(addr), ..self }
            },
        }
    }

    /// What a request comes to. Everyone who sends input has a handle of
    /// their own; what comes while nothing is emulated is dropped.
    pub open spec fn step(self, r: ProxyRequest, emulating: bool) -> EmulateStep {
        match r {
            ProxyRequest::Reenable => if emulating {
                EmulateStep::Nothing
            } else {
                EmulateStep::Begin
            },
            ProxyRequest::SetEnabled(on) => if on == emulating {
                EmulateStep::Nothing
            } else if on {
                EmulateStep::Begin
            } else {
                EmulateStep::Stop
            },
            ProxyRequest::Terminate => EmulateStep::Exit,
            ProxyRequest::Input(event, addr) => if !emulating {
                EmulateStep::Nothing
            } else if self.handles.contains_key(addr) {
                EmulateStep::Consume { event, handle: self.handles[addr], create: false }
            } else {
                EmulateStep::Consume { event, handle: self.next_id, create: true }
            },
            ProxyRequest::Remove(addr) => if emulating && self.handles.contains_key(addr) {
                EmulateStep::Destroy(self.handles[addr])
            } else {
                EmulateStep::Nothing
            },
        }
    }

    /// A request takes a new handle.
    pub open spec fn takes_handle(self, r: ProxyRequest, emulating: bool) -> bool {
        match r {
            ProxyRequest::Input(_, addr) => emulating && !self.handles.contains_key(addr),
            _ => false,
        }
    }

    /// Handles are handed out once each.
    pub open spec fn wf(self) -> bool {
        &&& forall|a: SocketAddr| #[trigger]
            self.handles.contains_key(a) ==> self.handles[a] < self.next_id
        &&& forall|a: SocketAddr, b: SocketAddr| #[trigger]
            self.handles.contains_key(a) && #[trigger] self.handles.contains_key(b) && a != b
                ==> self.handles[a] != self.handles[b]
    }
}

/// No two who send input ever share a handle.
pub proof fn lemma_handles_stay_distinct(v: EmulateView, r: ProxyRequest, emulating: bool)
    requires
        v.wf(),
        v.takes_handle(r, emulating) ==> v.next_id < u64::MAX,
    ensures
        v.after(r, emulating).wf(),
        v.next_id <= v.after(r, emulating).next_id,
{
}

/// The task that emulates input.
pub struct EmulationTask {
    enabled: bool,
    handles: AddrMap,
    next_id: u64,
}

impl View for EmulationTask {
    type V = EmulateView;

    closed spec fn view(&self) -> EmulateView {
        EmulateView { enabled: self.enabled, handles: self.handles@, next_id: self.next_id }
    }
}

impl EmulationTask {
    /// Nobody sent input yet.
    pub fn new(enabled: bool) -> (t: EmulationTask)
        ensures
            t@ == (EmulateView { enabled, handles: Map::empty(), next_id: 0 }),
            t@.wf(),
    {
        EmulationTask { enabled, handles: AddrMap::new(), next_id: 0 }
    }

    /// Whether emulating is wanted.
    pub fn enabled(&self) -> (b: bool)
        ensures
            b == self@.enabled,
    {
        self.enabled
    }

    /// Whether there are numbers left for more peers.
    pub fn has_numbers(&self) -> (b: bool)
        ensures
            b == (self@.next_id < u64::MAX),
    {
        self.next_id < u64::MAX
    }

    /// Notes that emulating ended.
    pub fn emulation_ended(&mut self)
        ensures
            final(self)@ == (EmulateView { enabled: false, ..old(self)@ }),
    {
        self.enabled = false;
    }

    /// The handles to create when emulating begins.
    pub fn handles(&self) -> (h: Vec<u64>)
        ensures
            crate::net::lists_numbers(self@.handles, h@),
    {
        self.handles.values()
    }

    /// Whether there is a number left for the handle that a request takes.
    pub fn has_number_for(&self, request: ProxyRequest, emulating: bool) -> (b: bool)
        ensures
            b == (self@.takes_handle(request, emulating) ==> self@.next_id < u64::MAX),
    {
        match request {
            ProxyRequest::Input(_, addr) => !emulating || self.has_numbers() || self.handles.get(
                addr,
            ).is_some(),
            _ => true,
        }
    }

    /// Does what is asked. `emulating` tells whether input is emulated.
    pub fn handle_request(&mut self, request: ProxyRequest, emulating: bool) -> (step: EmulateStep)
        requires
            old(self)@.takes_handle(request, emulating) ==> old(self)@.next_id < u64::MAX,
        ensures
            final(self)@ == old(self)@.after(request, emulating),
            step == old(self)@.step(request, emulating),
    {
        match request {
            ProxyRequest::Reenable => {
                if emulating {
                    EmulateStep::Nothing
                } else {
                    self.enabled = true;
                    EmulateStep::Begin
                }
            },
            ProxyRequest::SetEnabled(on) => {
                if on == emulating {
                    EmulateStep::Nothing
                } else {
                    self.enabled = on;
                    if on {
                        EmulateStep::Begin
                    } else {
                        EmulateStep::Stop
                    }
                }
            },
            ProxyRequest::Terminate => EmulateStep::Exit,
            ProxyRequest::Input(event, addr) => {
                if !emulating {
                    return EmulateStep::Nothing;
                }
                match self.handles.get(addr) {
                    Some(handle) => EmulateStep::Consume { event, handle, create: false },
                    None => {
                        let handle: u64 = self.next_id;
                        self.next_id = self.next_id + 1;
                        self.handles.insert(addr, handle);
                        EmulateStep::Consume { event, handle, create: true }
                    },
                }
            },
            ProxyRequest::Remove(addr) => {
                if !emulating {
                    return EmulateStep::Nothing;
                }
                match self.handles.remove(addr) {
                    Some(handle) => EmulateStep::Destroy(handle),
                    None => EmulateStep::Nothing,
                }
            },
        }
    }
}

} // verus!
