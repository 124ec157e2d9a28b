//! What holds of input capture whatever happens.

use super::{
    barrier_at, capture_views, lemma_barrier_at, listen_step, proto_pos, session_step, Barrier,
    CaptureAction, CaptureActionView, CaptureEvent, CaptureNext, CaptureRequest, CaptureTask, CaptureType, CaptureView,
    ICaptureEvent, ICaptureEventView, RequestStep, SessionStep, SessionStepView, State,
};
use crate::client::{ClientManager, ClientView, ManagerView, QueryView};
use crate::ipc::{opposite, ClientHandle, Position, StateView};
use crate::listen::ListenEvent;
use crate::net::SocketAddr;
use crate::proto::{self, InputEvent, KeyboardEvent, ProtoEvent};
use vstd::prelude::*;

verus! {

/// The barrier `b` is the one that counts for its handle: no other of the
/// handle was put up before it.
pub open spec fn counts(captures: Seq<Barrier>, b: Barrier) -> bool {
    exists|i: int|
        0 <= i < captures.len() && #[trigger] captures[i] == b && forall|j: int|
            0 <= j < i ==> (#[trigger] captures[j]).0 != b.0
}

/// A barrier that counts gives its handle's kind and edge.
pub proof fn lemma_barrier_counts(v: CaptureView, b: Barrier)
    requires
        counts(v.captures, b),
    ensures
        barrier_at(v.captures, b.0) is Some,
        v.edge(b.0) == b.1,
        v.kind(b.0) == b.2,
{
    lemma_barrier_at(v.captures, b.0);
    let i = choose|i: int|
        0 <= i < v.captures.len() && #[trigger] v.captures[i] == b && forall|j: int|
            0 <= j < i ==> (#[trigger] v.captures[j]).0 != b.0;
    let k = barrier_at(v.captures, b.0)->0;
    if k < i {
        assert(v.captures[k].0 != b.0);
    } else if i < k {
        assert(v.captures[i].0 != b.0);
    }
}

/// Once the entered client has answered, everything that is captured is sent
/// to it as it was captured, whatever kind of input it is, and nothing else
/// happens.
pub proof fn lemma_answered_client_gets_all_input(v: CaptureView, b: Barrier, e: InputEvent)
    requires
        counts(v.captures, b),
        b.2 == CaptureType::Default,
        v.state == State::Sending,
    ensures
        v.next_after_backend(b.0, CaptureEvent::Input(e), false) == CaptureNext::Send(
            b.0,
            ProtoEvent::Input(e),
        ),
        v.told_after_backend(b.0, CaptureEvent::Input(e), false) == Seq::<ICaptureEvent>::empty(),
        v.after_backend(b.0, CaptureEvent::Input(e), false) == v,
{
    lemma_barrier_counts(v, b);
}

/// The edge at which the pointer comes in is the one across from the edge at
/// which it went out.
pub proof fn lemma_edges_face_each_other(pos: Position)
    ensures
        opposite(pos) != pos,
        opposite(opposite(pos)) == pos,
        pos == Position::Left ==> proto_pos(opposite(pos)) == proto::Position::Right,
        pos == Position::Right ==> proto_pos(opposite(pos)) == proto::Position::Left,
        pos == Position::Top ==> proto_pos(opposite(pos)) == proto::Position::Bottom,
        pos == Position::Bottom ==> proto_pos(opposite(pos)) == proto::Position::Top,
{
}

/// Until the client has answered, all that is captured repeats the crossing:
/// the pointer comes in across from where it went out.
pub proof fn lemma_unanswered_crossing_is_repeated(v: CaptureView, b: Barrier, e: CaptureEvent)
    requires
        counts(v.captures, b),
        b.2 == CaptureType::Default,
        v.state == State::WaitingForAck || e == CaptureEvent::Begin,
    ensures
        v.next_after_backend(b.0, e, false) matches CaptureNext::Send(
            to,
            ProtoEvent::Enter(edge),
        ) && to == b.0 && edge == match b.1 {
            Position::Left => proto::Position::Right,
            Position::Right => proto::Position::Left,
            Position::Top => proto::Position::Bottom,
            Position::Bottom => proto::Position::Top,
        },
{
    lemma_barrier_counts(v, b);
}

/// A crossing is told to the service. Where it enters another client than the
/// one that is entered, that is told too, and the client has to answer anew.
pub proof fn lemma_crossing_is_told(v: CaptureView, b: Barrier)
    requires
        counts(v.captures, b),
    ensures
        ({
            let told = v.told_after_backend(b.0, CaptureEvent::Begin, false);
            let w = v.after_backend(b.0, CaptureEvent::Begin, false);
            &&& told.len() >= 1 && told[0] == ICaptureEvent::CaptureBegin(b.0)
            &&& b.2 == CaptureType::Default && v.active_client != Some(b.0) ==> {
                &&& told == seq![
                    ICaptureEvent::CaptureBegin(b.0),
                    ICaptureEvent::ClientEntered(b.0),
                ]
                &&& w == (CaptureView {
                    active_client: Some(b.0),
                    state: State::WaitingForAck,
                    ..v
                })
            }
            &&& b.2 == CaptureType::EnterOnly || v.active_client == Some(b.0) ==> told.len() == 1
                && w == v
        }),
{
    lemma_barrier_counts(v, b);
}

/// The release keys end the capture, whatever was captured and wherever, and
/// nothing is sent or told.
pub proof fn lemma_release_keys_come_first(v: CaptureView, h: ClientHandle, e: CaptureEvent)
    ensures
        v.next_after_backend(h, e, true) == CaptureNext::ReleaseCapture,
        v.told_after_backend(h, e, true) == Seq::<ICaptureEvent>::empty(),
        v.after_backend(h, e, true) == v,
{
}

/// The barrier of a device that entered only lets go: at once, unless a
/// client's barrier stands at the same edge.
pub proof fn lemma_enter_only_barrier_lets_go(v: CaptureView, b: Barrier, e: CaptureEvent)
    requires
        counts(v.captures, b),
        b.2 == CaptureType::EnterOnly,
    ensures
        v.after_backend(b.0, e, false) == v,
        (exists|i: int|
            0 <= i < v.captures.len() && (#[trigger] v.captures[i]).1 == b.1 && v.captures[i].2
                == CaptureType::Default) ==> v.next_after_backend(b.0, e, false)
            == CaptureNext::Nothing,
        (forall|i: int|
            0 <= i < v.captures.len() && v.captures[i].2 == CaptureType::Default ==> (
            #[trigger] v.captures[i]).1 != b.1) ==> v.next_after_backend(b.0, e, false)
            == CaptureNext::BackendRelease,
{
    lemma_barrier_counts(v, b);
}

/// Releasing sends the entered client a key-up for every key that is held, in
/// order, then cleared modifiers, then that it is left; the backend lets go
/// last. Where no client is entered, the backend just lets go.
pub proof fn lemma_release_in_full(v: CaptureView, pressed: Seq<u32>, i: int)
    ensures
        v.active_client is None ==> v.release_actions(pressed) == seq![
            CaptureActionView::BackendRelease,
        ],
        v.active_client matches Some(h) ==> {
            let acts = v.release_actions(pressed);
            let n = pressed.len() as int;
            &&& acts.len() == n + 3
            &&& 0 <= i < n ==> acts[i] == CaptureActionView::Send(
                h,
                ProtoEvent::Input(
                    InputEvent::Keyboard(
                        KeyboardEvent::Key { time: 0, key: pressed[i], state: 0 },
                    ),
                ),
            )
            &&& acts[n] == CaptureActionView::Send(
                h,
                ProtoEvent::Input(
                    InputEvent::Keyboard(
                        KeyboardEvent::Modifiers { depressed: 0, latched: 0, locked: 0, group: 0 },
                    ),
                ),
            )
            &&& acts[n + 1] == CaptureActionView::Send(h, ProtoEvent::Leave(0))
            &&& acts[n + 2] == CaptureActionView::BackendRelease
        },
{
}

/// A barrier that is put up stands, after those that stood, and reaches the
/// backend at once where input is captured.
pub proof fn lemma_barriers_go_up(v: CaptureView, b: Barrier, capturing: bool)
    ensures
        ({
            let r = CaptureRequest::Create(b.0, b.1, b.2);
            &&& v.after_request(r, capturing) == (CaptureView {
                captures: v.captures.push(b),
                ..v
            })
            &&& v.request_step(r, capturing) == if capturing {
                RequestStep::BackendCreate(b.0, b.1)
            } else {
                RequestStep::Done
            }
        }),
{
}

/// A handle whose barriers are taken down has none left, while those of every
/// other handle stand; the backend learns of it where input is captured.
pub proof fn lemma_barriers_come_down(
    v: CaptureView,
    h: ClientHandle,
    other: Barrier,
    capturing: bool,
)
    ensures
        ({
            let r = CaptureRequest::Destroy(h);
            let w = v.after_request(r, capturing);
            &&& w == (CaptureView { captures: w.captures, ..v })
            &&& barrier_at(w.captures, h) is None
            &&& w.captures.contains(other) <==> v.captures.contains(other) && other.0 != h
            &&& v.request_step(r, capturing) == if capturing {
                RequestStep::BackendDestroy(h)
            } else {
                RequestStep::Done
            }
        }),
{
    let w = v.after_request(CaptureRequest::Destroy(h), capturing);
    super::lemma_without(v.captures, h, other);
    lemma_barrier_at(w.captures, h);
    if let Some(i) = barrier_at(w.captures, h) {
        let b = w.captures[i];
        super::lemma_without(v.captures, h, b);
        assert(w.captures.contains(b));
    }
}

/// Capturing begins when it is asked for and not going on, and ends when it
/// is called off and going on; asking for what is so already does nothing.
pub proof fn lemma_capture_is_switched(v: CaptureView, on: bool, capturing: bool)
    ensures
        v.request_step(CaptureRequest::SetEnabled(on), capturing) == if on == capturing {
            RequestStep::Done
        } else if on {
            RequestStep::BeginCapture
        } else {
            RequestStep::EndCapture
        },
        v.after_request(CaptureRequest::SetEnabled(on), capturing) == if on == capturing {
            v
        } else {
            CaptureView { enabled: on, ..v }
        },
        v.request_step(CaptureRequest::Reenable, false) == RequestStep::BeginCapture,
        v.after_request(CaptureRequest::Reenable, false) == (CaptureView { enabled: true, ..v }),
        v.request_step(CaptureRequest::Reenable, true) == RequestStep::Done,
        v.after_request(CaptureRequest::Reenable, true) == v,
        v.request_step(CaptureRequest::Release, true) == RequestStep::ReleaseCapture,
        v.request_step(CaptureRequest::Release, false) == RequestStep::Done,
        v.after_request(CaptureRequest::Release, capturing) == v,
{
}

/// The release keys are the ones that were set last.
pub proof fn lemma_release_keys_are_set(v: CaptureView, keys: Vec<u32>, capturing: bool)
    ensures
        v.after_request(CaptureRequest::SetReleaseBind(keys), capturing) == (CaptureView {
            release_bind: keys@,
            ..v
        }),
        v.request_step(CaptureRequest::SetReleaseBind(keys), capturing) == RequestStep::Done,
{
}

/// There is at most one listener: it is created where there is none, moved
/// where there is one, and closed where it is no longer wanted. Without one a
/// change of port is just taken.
pub proof fn lemma_one_listener(v: CaptureView, port: u16, capturing: bool)
    ensures
        v.request_step(CaptureRequest::StartListening(port), capturing) == if v.listening {
            RequestStep::Done
        } else {
            RequestStep::CreateListener(port)
        },
        v.after_request(CaptureRequest::StartListening(port), capturing) == v,
        v.request_step(CaptureRequest::ChangePort(port), capturing) == if v.listening {
            RequestStep::MoveListener(port)
        } else {
            RequestStep::PortTaken(port)
        },
        v.after_request(CaptureRequest::ChangePort(port), capturing) == v,
        v.request_step(CaptureRequest::StopListening, capturing) == if v.listening {
            RequestStep::CloseListener
        } else {
            RequestStep::Done
        },
        v.after_request(CaptureRequest::StopListening, capturing) == (CaptureView {
            listening: false,
            ..v
        }),
{
}

/// Two managers hold the same clients, but for what one of them is, and the
/// same waiting devices.
pub open spec fn differ_at(a: ManagerView, b: ManagerView, h: ClientHandle) -> bool {
    &&& a.slots.len() == b.slots.len()
    &&& a.free == b.free
    &&& a.parked == b.parked
    &&& forall|k: ClientHandle|
        crate::client::slot(k) != crate::client::slot(h) ==> #[trigger] b.get(k) == a.get(k)
}

/// A device that is let in and has a client is that client's connection from
/// then on, available once it says so, and the service learns of it. The
/// other clients stay as they are.
pub proof fn lemma_paired_device_is_bound(
    v: CaptureView,
    m: ManagerView,
    addr: SocketAddr,
    fingerprint: String,
    now_ms: u64,
    commit: [u8; 8],
    m2: ManagerView,
    actions: Seq<CaptureActionView>,
    h: ClientHandle,
    c: ClientView,
)
    requires
        listen_step(v, m, ListenEvent::Accept { addr, fingerprint }, now_ms, commit, m2, actions),
        m.first(QueryView::Fingerprint(fingerprint@)) == Some(h),
        m.get(h) == Some(c),
    ensures
        m2.get(h) == Some(
            ClientView {
                state: StateView { active_addr: Some(addr), alive: false, ..c.state },
                ..c
            },
        ),
        differ_at(m, m2, h),
        actions == seq![CaptureActionView::Tell(ICaptureEventView::ClientStateChanged(h))],
{
}

/// A device that is let in and has no client waits under its fingerprint, and
/// the service learns of it. No client changes.
pub proof fn lemma_unpaired_device_waits(
    v: CaptureView,
    m: ManagerView,
    addr: SocketAddr,
    fingerprint: String,
    now_ms: u64,
    commit: [u8; 8],
    m2: ManagerView,
    actions: Seq<CaptureActionView>,
)
    requires
        listen_step(v, m, ListenEvent::Accept { addr, fingerprint }, now_ms, commit, m2, actions),
        m.first(QueryView::Fingerprint(fingerprint@)) is None,
    ensures
        m2 == (ManagerView { parked: m.parked.insert(fingerprint@, addr), ..m }),
        actions == seq![
            CaptureActionView::Tell(
                ICaptureEventView::DeviceConnected { addr, fingerprint: fingerprint@ },
            ),
        ],
{
}

/// A device that was turned away is reported where it never tried before, or
/// not within the last two seconds, and then only; each try is noted.
pub proof fn lemma_turned_away_device_is_reported(
    v: CaptureView,
    m: ManagerView,
    fingerprint: String,
    now_ms: u64,
    commit: [u8; 8],
    m2: ManagerView,
    actions: Seq<CaptureActionView>,
)
    requires
        listen_step(v, m, ListenEvent::Rejected { fingerprint }, now_ms, commit, m2, actions),
    ensures
        m2 == m,
        ({
            let quiet = v.rejected.contains_key(fingerprint@) && now_ms
                < v.rejected[fingerprint@] + 2_000;
            actions == if quiet {
                Seq::<CaptureActionView>::empty()
            } else {
                seq![
                    CaptureActionView::Tell(
                        ICaptureEventView::ConnectionAttempt { fingerprint: fingerprint@ },
                    ),
                ]
            }
        }),
        v.heard(ListenEvent::Rejected { fingerprint }, now_ms) == (CaptureView {
            rejected: v.rejected.insert(fingerprint@, now_ms),
            ..v
        }),
{
}

/// A client whose connection ended has none, is not available, and its build
/// is forgotten; the service learns of it. The other clients stay as they are.
pub proof fn lemma_lost_connection_is_forgotten(
    v: CaptureView,
    m: ManagerView,
    addr: SocketAddr,
    now_ms: u64,
    commit: [u8; 8],
    m2: ManagerView,
    actions: Seq<CaptureActionView>,
    h: ClientHandle,
    c: ClientView,
)
    requires
        listen_step(v, m, ListenEvent::Disconnected { addr }, now_ms, commit, m2, actions),
        m.first(QueryView::ActiveAddr(addr)) == Some(h),
        m.get(h) == Some(c),
    ensures
        m2.get(h) == Some(
            ClientView {
                state: StateView {
                    active_addr: None,
                    alive: false,
                    peer_commit: None,
                    ..c.state
                },
                ..c
            },
        ),
        differ_at(m, m2, h),
        actions == seq![CaptureActionView::Tell(ICaptureEventView::ClientStateChanged(h))],
{
}

/// A waiting device whose connection ended waits no more, and the service
/// learns of it; where nobody waited, nothing happens.
pub proof fn lemma_waiting_device_may_leave(
    v: CaptureView,
    m: ManagerView,
    addr: SocketAddr,
    now_ms: u64,
    commit: [u8; 8],
    m2: ManagerView,
    actions: Seq<CaptureActionView>,
    f: Seq<char>,
)
    requires
        listen_step(v, m, ListenEvent::Disconnected { addr }, now_ms, commit, m2, actions),
        m.first(QueryView::ActiveAddr(addr)) is None,
    ensures
        m2.slots == m.slots && m2.free == m.free,
        m.parked.contains_key(f) && m.parked[f] == addr ==> actions == seq![
            CaptureActionView::Tell(ICaptureEventView::DeviceDisconnected { addr }),
        ],
        m.parked.contains_key(f) && m.parked[f] != addr ==> m2.parked.contains_key(f)
            && m2.parked[f] == m.parked[f],
        (forall|g: Seq<char>| #[trigger] m.parked.contains_key(g) ==> m.parked[g] != addr) ==> m2
            == m && actions == Seq::<CaptureActionView>::empty(),
        m.parked.contains_key(f) && m.parked[f] == addr ==> exists|g: Seq<char>|
            m.parked.contains_key(g) && m.parked[g] == addr && !(
            #[trigger] m2.parked.contains_key(g)),
{
    if m.parked.contains_key(f) && m.parked[f] == addr {
        assert(m.parked.contains_value(addr));
        let g = choose|g: Seq<char>| #[trigger]
            m.parked.contains_key(g) && m.parked[g] == addr && m2 == (ManagerView {
                parked: m.parked.remove(g),
                ..m
            });
        assert(!m2.parked.contains_key(g));
    }
    if forall|g: Seq<char>| #[trigger] m.parked.contains_key(g) ==> m.parked[g] != addr {
        if m.parked.contains_value(addr) {
            let g = choose|g: Seq<char>| #[trigger]
                m.parked.contains_key(g) && m.parked[g] == addr;
            assert(m.parked[g] != addr);
        }
    }
}

/// An answer to a probe says whether the client is available. The service
/// learns of it where that changed.
pub proof fn lemma_answer_tells_availability(
    v: CaptureView,
    m: ManagerView,
    addr: SocketAddr,
    alive: bool,
    now_ms: u64,
    commit: [u8; 8],
    m2: ManagerView,
    actions: Seq<CaptureActionView>,
    h: ClientHandle,
    c: ClientView,
)
    requires
        listen_step(
            v,
            m,
            ListenEvent::Msg { event: ProtoEvent::Pong(alive), addr },
            now_ms,
            commit,
            m2,
            actions,
        ),
        m.first(QueryView::ActiveAddr(addr)) == Some(h),
        m.get(h) == Some(c),
    ensures
        m2.get(h) == Some(ClientView { state: StateView { alive, ..c.state }, ..c }),
        differ_at(m, m2, h),
        actions == if c.state.alive != alive {
            seq![CaptureActionView::Tell(ICaptureEventView::ClientStateChanged(h))]
        } else {
            Seq::<CaptureActionView>::empty()
        },
{
}

/// A greeting is returned with this build, and the client's build is noted
/// and told.
pub proof fn lemma_greeting_is_returned(
    v: CaptureView,
    m: ManagerView,
    addr: SocketAddr,
    theirs: [u8; 8],
    now_ms: u64,
    commit: [u8; 8],
    m2: ManagerView,
    actions: Seq<CaptureActionView>,
    h: ClientHandle,
    c: ClientView,
)
    requires
        listen_step(
            v,
            m,
            ListenEvent::Msg { event: ProtoEvent::Hello { commit: theirs }, addr },
            now_ms,
            commit,
            m2,
            actions,
        ),
        v.listening,
    ensures
        actions.len() >= 1 && actions[0] == CaptureActionView::Reply(
            addr,
            ProtoEvent::Hello { commit },
        ),
        m.first(QueryView::ActiveAddr(addr)) is None ==> m2 == m && actions.len() == 1,
        m.first(QueryView::ActiveAddr(addr)) == Some(h) && m.get(h) == Some(c) ==> {
            &&& m2.get(h) == Some(
                ClientView { state: StateView { peer_commit: Some(theirs), ..c.state }, ..c },
            )
            &&& differ_at(m, m2, h)
            &&& actions.len() == 2
            &&& actions[1] == CaptureActionView::Tell(ICaptureEventView::ClientStateChanged(h))
        },
{
}

/// How an audio stream stands is passed on as it was told.
pub proof fn lemma_stream_status_is_passed_on(
    v: CaptureView,
    m: ManagerView,
    addr: SocketAddr,
    active: bool,
    latency_ms: u32,
    packets_lost: u64,
    level: u32,
    now_ms: u64,
    commit: [u8; 8],
    m2: ManagerView,
    actions: Seq<CaptureActionView>,
)
    requires
        listen_step(
            v,
            m,
            ListenEvent::AudioStream { addr, active, latency_ms, packets_lost, level },
            now_ms,
            commit,
            m2,
            actions,
        ),
    ensures
        m2 == m,
        actions == seq![
            CaptureActionView::Tell(
                ICaptureEventView::AudioStream { addr, active, latency_ms, packets_lost, level },
            ),
        ],
{
}

/// Nothing that a device sends but answers to probes and greetings changes
/// the clients or is passed on while nothing is captured.
pub proof fn lemma_other_messages_are_ignored(
    v: CaptureView,
    m: ManagerView,
    event: ProtoEvent,
    addr: SocketAddr,
    now_ms: u64,
    commit: [u8; 8],
    m2: ManagerView,
    actions: Seq<CaptureActionView>,
)
    requires
        listen_step(v, m, ListenEvent::Msg { event, addr }, now_ms, commit, m2, actions),
        !(event is Hello),
        !(event is Pong) || m.first(QueryView::ActiveAddr(addr)) is None,
    ensures
        m2 == m,
        actions == Seq::<CaptureActionView>::empty(),
{
}

/// What comes over a connection leaves the capture as it is, but for when
/// devices were turned away.
pub proof fn lemma_connections_leave_the_capture(v: CaptureView, event: ListenEvent, now_ms: u64)
    ensures
        !(event is Rejected) ==> v.heard(event, now_ms) == v,
        v.heard(event, now_ms) == (CaptureView {
            rejected: v.heard(event, now_ms).rejected,
            ..v
        }),
{
}

/// The entered client's answer begins the sending of input, and no other
/// device's does.
pub proof fn lemma_only_the_entered_client_answers(
    v: CaptureView,
    m: ManagerView,
    serial: u32,
    addr: SocketAddr,
    now_ms: u64,
    commit: [u8; 8],
    w: CaptureView,
    m2: ManagerView,
    step: SessionStepView,
)
    requires
        session_step(
            v,
            m,
            ListenEvent::Msg { event: ProtoEvent::Ack(serial), addr },
            now_ms,
            commit,
            w,
            m2,
            step,
        ),
    ensures
        m2 == m,
        step == SessionStepView::Act(seq![]),
        v.active_client is Some && m.first(QueryView::ActiveAddr(addr)) == v.active_client ==> w
            == (CaptureView { state: State::Sending, ..v }),
        v.active_client is None || m.first(QueryView::ActiveAddr(addr)) != v.active_client ==> w
            == v,
{
}

/// The entered client's leaving releases the capture, and no other device's
/// does.
pub proof fn lemma_only_the_entered_client_leaves(
    v: CaptureView,
    m: ManagerView,
    serial: u32,
    addr: SocketAddr,
    now_ms: u64,
    commit: [u8; 8],
    w: CaptureView,
    m2: ManagerView,
    step: SessionStepView,
)
    requires
        session_step(
            v,
            m,
            ListenEvent::Msg { event: ProtoEvent::Leave(serial), addr },
            now_ms,
            commit,
            w,
            m2,
            step,
        ),
    ensures
        m2 == m,
        w == v,
        v.active_client is Some && m.first(QueryView::ActiveAddr(addr)) == v.active_client
            ==> step is Release,
        v.active_client is None || m.first(QueryView::ActiveAddr(addr)) != v.active_client ==> step
            == SessionStepView::Act(seq![]),
{
}

/// Everything else that comes over a connection is handled during a capture
/// as it is without one.
pub proof fn lemma_sessions_change_nothing_else(
    v: CaptureView,
    m: ManagerView,
    event: ListenEvent,
    now_ms: u64,
    commit: [u8; 8],
    w: CaptureView,
    m2: ManagerView,
    step: SessionStepView,
)
    requires
        session_step(v, m, event, now_ms, commit, w, m2, step),
        event matches ListenEvent::Msg { event: e, .. } ==> !(e is Ack) && !(e is Leave),
    ensures
        step matches SessionStepView::Act(actions) && listen_step(
            v,
            m,
            event,
            now_ms,
            commit,
            m2,
            actions,
        ),
        w == v.heard(event, now_ms),
{
}

/// A client that is crossed to, answers, and is sent input gets the input;
/// once it is released, crossing to it again has it answer anew.
pub proof fn lemma_a_visit_from_start_to_end(
    v: CaptureView,
    b: Barrier,
    e: InputEvent,
)
    requires
        counts(v.captures, b),
        b.2 == CaptureType::Default,
        v.active_client != Some(b.0),
    ensures
        ({
            let entered = v.after_backend(b.0, CaptureEvent::Begin, false);
            let answered = CaptureView { state: State::Sending, ..entered };
            let left = CaptureView { active_client: None, ..answered };
            &&& entered.active_client == Some(b.0)
            &&& answered.next_after_backend(b.0, CaptureEvent::Input(e), false)
                == CaptureNext::Send(b.0, ProtoEvent::Input(e))
            &&& left.after_backend(b.0, CaptureEvent::Begin, false).state == State::WaitingForAck
        }),
{
    lemma_barrier_counts(v, b);
    let entered = v.after_backend(b.0, CaptureEvent::Begin, false);
    let answered = CaptureView { state: State::Sending, ..entered };
    assert(counts(answered.captures, b));
    lemma_answered_client_gets_all_input(answered, b, e);
}

/// What is captured at a client's barrier: input is sent as it is once the
/// client answered; until then, and for every crossing, the crossing is sent.
pub proof fn lemma_captured_input_is_sent(
    t: &mut CaptureTask,
    b: Barrier,
    e: CaptureEvent,
    r: (Vec<ICaptureEvent>, CaptureNext),
)
    requires
        counts(old(t)@.captures, b),
        b.2 == CaptureType::Default,
        call_ensures(CaptureTask::handle_capture_event, (t, b.0, e, false), r),
    ensures
        r.1 matches CaptureNext::Send(to, what) && to == b.0 && what == match e {
            CaptureEvent::Input(i) if old(t)@.state == State::Sending => ProtoEvent::Input(i),
            _ => ProtoEvent::Enter(
                match b.1 {
                    Position::Left => proto::Position::Right,
                    Position::Right => proto::Position::Left,
                    Position::Top => proto::Position::Bottom,
                    Position::Bottom => proto::Position::Top,
                },
            ),
        },
        e is Input ==> r.0@.len() == 0 && final(t)@ == old(t)@,
        e is Begin && old(t)@.active_client == Some(b.0) ==> r.0@ == seq![
            ICaptureEvent::CaptureBegin(b.0),
        ] && final(t)@ == old(t)@,
        e is Begin && old(t)@.active_client != Some(b.0) ==> r.0@ == seq![
            ICaptureEvent::CaptureBegin(b.0),
            ICaptureEvent::ClientEntered(b.0),
        ] && final(t)@ == (CaptureView {
            active_client: Some(b.0),
            state: State::WaitingForAck,
            ..old(t)@
        }),
{
    lemma_barrier_counts(old(t)@, b);
}

/// What is captured at the barrier of a device that entered: a crossing is
/// told, the backend lets go unless a client is at the same edge, and nothing
/// is sent. While the release keys are held the capture is released, and
/// nothing else happens.
pub proof fn lemma_nothing_is_sent_elsewhere(
    t: &mut CaptureTask,
    b: Barrier,
    e: CaptureEvent,
    held: bool,
    r: (Vec<ICaptureEvent>, CaptureNext),
)
    requires
        counts(old(t)@.captures, b),
        b.2 == CaptureType::EnterOnly || held,
        call_ensures(CaptureTask::handle_capture_event, (t, b.0, e, held), r),
    ensures
        final(t)@ == old(t)@,
        held ==> r.1 == CaptureNext::ReleaseCapture && r.0@.len() == 0,
        !held && e is Begin ==> r.0@ == seq![ICaptureEvent::CaptureBegin(b.0)],
        !held && e is Input ==> r.0@.len() == 0,
        !held ==> r.1 == if exists|i: int|
            0 <= i < old(t)@.captures.len() && (#[trigger] old(t)@.captures[i]).1 == b.1 && old(
                t,
            )@.captures[i].2 == CaptureType::Default {
            CaptureNext::Nothing
        } else {
            CaptureNext::BackendRelease
        },
{
    lemma_barrier_counts(old(t)@, b);
}

/// Releasing takes back every key that is held, clears the modifiers, leaves
/// the client and lets go, in this order; afterwards no client is entered.
pub proof fn lemma_capture_is_released(
    t: &mut CaptureTask,
    pressed: &Vec<u32>,
    acts: Vec<CaptureAction>,
    i: int,
)
    requires
        call_ensures(CaptureTask::release_capture, (t, pressed), acts),
    ensures
        final(t)@ == (CaptureView { active_client: None, ..old(t)@ }),
        old(t)@.active_client is None ==> acts@.len() == 1 && acts@[0]
            == CaptureAction::BackendRelease,
        old(t)@.active_client matches Some(h) ==> {
            let n = pressed@.len() as int;
            &&& acts@.len() == n + 3
            &&& 0 <= i < n ==> acts@[i] == CaptureAction::Send(
                h,
                ProtoEvent::Input(
                    InputEvent::Keyboard(
                        KeyboardEvent::Key { time: 0, key: pressed@[i], state: 0 },
                    ),
                ),
            )
            &&& acts@[n] == CaptureAction::Send(
                h,
                ProtoEvent::Input(
                    InputEvent::Keyboard(
                        KeyboardEvent::Modifiers { depressed: 0, latched: 0, locked: 0, group: 0 },
                    ),
                ),
            )
            &&& acts@[n + 1] == CaptureAction::Send(h, ProtoEvent::Leave(0))
            &&& acts@[n + 2] == CaptureAction::BackendRelease
        },
{
    lemma_release_in_full(old(t)@, pressed@, i);
    let all = capture_views(acts@);
    assert(all.len() == acts@.len());
    assert forall|k: int| 0 <= k < all.len() implies #[trigger] all[k] == acts@[k]@ by {}
    let n = pressed@.len() as int;
    if old(t)@.active_client is None {
        assert(all[0] == acts@[0]@);
    } else {
        assert(0 <= i < n ==> all[i] == acts@[i]@);
        assert(all[n] == acts@[n]@);
        assert(all[n + 1] == acts@[n + 1]@);
        assert(all[n + 2] == acts@[n + 2]@);
    }
}

/// What is asked of the capture is what is done, for every kind of request.
pub proof fn lemma_requests_are_carried_out(
    t: &mut CaptureTask,
    r: CaptureRequest,
    on: bool,
    step: RequestStep,
)
    requires
        call_ensures(CaptureTask::handle_request, (t, r, on), step),
    ensures
        step == match r {
            CaptureRequest::Create(h, pos, _) => if on {
                RequestStep::BackendCreate(h, pos)
            } else {
                RequestStep::Done
            },
            CaptureRequest::Destroy(h) => if on {
                RequestStep::BackendDestroy(h)
            } else {
                RequestStep::Done
            },
            CaptureRequest::Reenable => if on {
                RequestStep::Done
            } else {
                RequestStep::BeginCapture
            },
            CaptureRequest::SetEnabled(true) => if on {
                RequestStep::Done
            } else {
                RequestStep::BeginCapture
            },
            CaptureRequest::SetEnabled(false) => if on {
                RequestStep::EndCapture
            } else {
                RequestStep::Done
            },
            CaptureRequest::Release => if on {
                RequestStep::ReleaseCapture
            } else {
                RequestStep::Done
            },
            CaptureRequest::SetReleaseBind(_) => RequestStep::Done,
            CaptureRequest::StartListening(p) => if old(t)@.listening {
                RequestStep::Done
            } else {
                RequestStep::CreateListener(p)
            },
            CaptureRequest::StopListening => if old(t)@.listening {
                RequestStep::CloseListener
            } else {
                RequestStep::Done
            },
            CaptureRequest::ChangePort(p) => if old(t)@.listening {
                RequestStep::MoveListener(p)
            } else {
                RequestStep::PortTaken(p)
            },
        },
        r is Release || r is StartListening || r is ChangePort ==> final(t)@
            == old(t)@,
        r is Reenable || r is SetEnabled ==> final(t)@ == (CaptureView {
            enabled: final(t)@.enabled,
            ..old(t)@
        }),
        r is StopListening ==> final(t)@ == (CaptureView { listening: false, ..old(t)@ }),
        r matches CaptureRequest::Create(h, pos, kind) ==> final(t)@ == (CaptureView {
            captures: old(t)@.captures.push((h, pos, kind)),
            ..old(t)@
        }),
        r is Destroy ==> final(t)@ == (CaptureView {
            captures: final(t)@.captures,
            ..old(t)@
        }),
        r matches CaptureRequest::SetReleaseBind(keys) ==> final(t)@ == (CaptureView {
            release_bind: keys@,
            ..old(t)@
        }),
        r is SetEnabled || r is Reenable ==> (final(t)@.enabled <==> if step
            == RequestStep::Done {
            old(t)@.enabled
        } else {
            step == RequestStep::BeginCapture
        }),
{
}

/// A barrier is there where one was put up for the handle.
pub proof fn lemma_barriers_are_known(t: &CaptureTask, h: ClientHandle, r: bool)
    requires
        call_ensures(CaptureTask::has_barrier, (t, h), r),
    ensures
        r <==> exists|i: int| 0 <= i < t@.captures.len() && (#[trigger] t@.captures[i]).0 == h,
{
    lemma_barrier_at(t@.captures, h);
}

/// Failed sends are logged, but for half a second after one that was.
pub proof fn lemma_failed_sends_are_logged(t: &mut CaptureTask, now_ms: u64, log: bool)
    requires
        call_ensures(CaptureTask::send_failed, (t, now_ms), log),
    ensures
        !log <==> (old(t)@.last_log_ms matches Some(last) && now_ms <= last + 500),
        final(t)@.last_log_ms == if log {
            Some(now_ms)
        } else {
            old(t)@.last_log_ms
        },
        final(t)@ == (CaptureView { last_log_ms: final(t)@.last_log_ms, ..old(t)@ }),
{
}

/// A listener that came about is told with its port, and devices are accepted
/// from then on; one that failed is told with its error and changes nothing.
pub proof fn lemma_listener_is_told(
    t: &mut CaptureTask,
    port: u16,
    error: Option<String>,
    e: ICaptureEvent,
)
    requires
        call_ensures(CaptureTask::listener_created, (t, port, error), e),
    ensures
        match error {
            Some(text) => final(t)@ == old(t)@ && (e matches ICaptureEvent::PortChanged(Err(s))
                && s@ == text@),
            None => final(t)@ == (CaptureView { listening: true, ..old(t)@ }) && e
                == ICaptureEvent::PortChanged(Ok(port)),
        },
{
}

/// A capture begins with no client entered, no barriers and nobody turned
/// away, and with what it was given; it is read as it is, and one that ended
/// is not wanted any more.
pub proof fn lemma_capture_begins(
    listening: bool,
    enabled: bool,
    keys: Vec<u32>,
    t: CaptureTask,
    wanted: bool,
    entered: bool,
    bind: &Vec<u32>,
    barriers: &Vec<Barrier>,
)
    requires
        call_ensures(CaptureTask::new, (listening, enabled, keys), t),
        call_ensures(CaptureTask::enabled, (&t,), wanted),
        call_ensures(CaptureTask::has_active_client, (&t,), entered),
        call_ensures(CaptureTask::release_bind, (&t,), bind),
        call_ensures(CaptureTask::barriers, (&t,), barriers),
    ensures
        wanted == enabled,
        !entered,
        bind@ == keys@,
        barriers@.len() == 0,
        t@.listening == listening,
        t@.rejected == Map::<Seq<char>, u64>::empty(),
        t@.state == State::WaitingForAck,
        t@.last_log_ms is None,
{
}

/// What the capture is, is what is read of it.
pub proof fn lemma_capture_is_read(
    t: &CaptureTask,
    wanted: bool,
    entered: bool,
    bind: &Vec<u32>,
    barriers: &Vec<Barrier>,
)
    requires
        call_ensures(CaptureTask::enabled, (t,), wanted),
        call_ensures(CaptureTask::has_active_client, (t,), entered),
        call_ensures(CaptureTask::release_bind, (t,), bind),
        call_ensures(CaptureTask::barriers, (t,), barriers),
    ensures
        wanted == t@.enabled,
        entered <==> t@.active_client is Some,
        bind@ == t@.release_bind,
        barriers@ == t@.captures,
{
}

/// A capture that ended is not wanted any more; nothing else of it changes.
pub proof fn lemma_capture_ends(t: &mut CaptureTask)
    requires
        call_ensures(CaptureTask::capture_ended, (t,), ()),
    ensures
        final(t)@ == (CaptureView { enabled: false, ..old(t)@ }),
{
}

/// A device of a client that connects is bound to the client: what is called
/// for is told, and the capture itself stays as it is.
pub proof fn lemma_accepting_a_device(
    t: &mut CaptureTask,
    clients: &mut ClientManager,
    addr: SocketAddr,
    fingerprint: String,
    now_ms: u64,
    commit: [u8; 8],
    acts: Vec<CaptureAction>,
)
    requires
        call_ensures(
            CaptureTask::handle_listen_event,
            (t, clients, ListenEvent::Accept { addr, fingerprint }, now_ms, commit),
            acts,
        ),
    ensures
        final(t)@ == old(t)@,
        acts@.len() == 1,
        match old(clients)@.first(QueryView::Fingerprint(fingerprint@)) {
            Some(h) => acts@[0] == CaptureAction::Tell(ICaptureEvent::ClientStateChanged(h)),
            None => {
                &&& acts@[0] matches CaptureAction::Tell(
                    ICaptureEvent::DeviceConnected { addr: a, fingerprint: f },
                ) && a == addr && f@ == fingerprint@
                &&& final(clients)@.parked == old(clients)@.parked.insert(fingerprint@, addr)
            },
        },
{
    let all = capture_views(acts@);
    assert(all.len() == acts@.len());
    assert(all[0] == acts@[0]@);
}

/// A device that is turned away is reported, unless it was within the last
/// two seconds.
pub proof fn lemma_turning_a_device_away(
    t: &mut CaptureTask,
    clients: &mut ClientManager,
    fingerprint: String,
    now_ms: u64,
    commit: [u8; 8],
    acts: Vec<CaptureAction>,
)
    requires
        call_ensures(
            CaptureTask::handle_listen_event,
            (t, clients, ListenEvent::Rejected { fingerprint }, now_ms, commit),
            acts,
        ),
    ensures
        final(clients)@ == old(clients)@,
        final(t)@ == (CaptureView {
            rejected: old(t)@.rejected.insert(fingerprint@, now_ms),
            ..old(t)@
        }),
        ({
            let known = old(t)@.rejected;
            if known.contains_key(fingerprint@) && now_ms < known[fingerprint@] + 2_000 {
                acts@.len() == 0
            } else {
                &&& acts@.len() == 1
                &&& acts@[0] matches CaptureAction::Tell(
                    ICaptureEvent::ConnectionAttempt { fingerprint: f },
                ) && f@ == fingerprint@
            }
        }),
{
    let all = capture_views(acts@);
    assert(all.len() == acts@.len());
    if acts@.len() > 0 {
        assert(all[0] == acts@[0]@);
    }
}

/// During a capture, the entered client's answer has input sent from then on,
/// and its leaving releases the capture.
pub proof fn lemma_entered_client_speaks(
    t: &mut CaptureTask,
    clients: &mut ClientManager,
    serial: u32,
    addr: SocketAddr,
    now_ms: u64,
    commit: [u8; 8],
    h: ClientHandle,
    leaves: bool,
    step: SessionStep,
)
    requires
        old(t)@.active_client == Some(h),
        old(clients)@.first(QueryView::ActiveAddr(addr)) == Some(h),
        call_ensures(
            CaptureTask::handle_session_event,
            (
                t,
                clients,
                ListenEvent::Msg {
                    event: if leaves {
                        ProtoEvent::Leave(serial)
                    } else {
                        ProtoEvent::Ack(serial)
                    },
                    addr,
                },
                now_ms,
                commit,
            ),
            step,
        ),
    ensures
        final(clients)@ == old(clients)@,
        leaves ==> step is Release && final(t)@ == old(t)@,
        !leaves ==> (step matches SessionStep::Act(a) && a@.len() == 0) && final(t)@ == (
        CaptureView { state: State::Sending, ..old(t)@ }),
{
    if let SessionStep::Act(a) = step {
        assert(capture_views(a@).len() == a@.len());
    }
}

/// An edge goes over the wire as the service knows it.
pub proof fn lemma_edges_keep_their_names(p: Position, q: proto::Position)
    requires
        call_ensures(super::to_proto_pos, (p,), q),
    ensures
        p == Position::Left ==> q == proto::Position::Left,
        p == Position::Right ==> q == proto::Position::Right,
        p == Position::Top ==> q == proto::Position::Top,
        p == Position::Bottom ==> q == proto::Position::Bottom,
{
}

/// Without a listener a greeting is not returned, but the build is noted and
/// told all the same.
pub proof fn lemma_greeting_without_a_listener(
    v: CaptureView,
    m: ManagerView,
    addr: SocketAddr,
    theirs: [u8; 8],
    now_ms: u64,
    commit: [u8; 8],
    m2: ManagerView,
    actions: Seq<CaptureActionView>,
    h: ClientHandle,
    c: ClientView,
)
    requires
        listen_step(
            v,
            m,
            ListenEvent::Msg { event: ProtoEvent::Hello { commit: theirs }, addr },
            now_ms,
            commit,
            m2,
            actions,
        ),
        !v.listening,
    ensures
        m.first(QueryView::ActiveAddr(addr)) is None ==> m2 == m && actions.len() == 0,
        m.first(QueryView::ActiveAddr(addr)) == Some(h) && m.get(h) == Some(c) ==> {
            &&& m2.get(h) == Some(
                ClientView { state: StateView { peer_commit: Some(theirs), ..c.state }, ..c },
            )
            &&& differ_at(m, m2, h)
            &&& actions.len() == 1
            &&& actions[0] == CaptureActionView::Tell(ICaptureEventView::ClientStateChanged(h))
        },
{
}

/// Outside a capture each event is handled as its law says, and leaves the
/// capture as it is, but for when devices were turned away.
pub proof fn lemma_events_outside_a_capture(
    t: &mut CaptureTask,
    clients: &mut ClientManager,
    event: ListenEvent,
    now_ms: u64,
    commit: [u8; 8],
    acts: Vec<CaptureAction>,
)
    requires
        call_ensures(
            CaptureTask::handle_listen_event,
            (t, clients, event, now_ms, commit),
            acts,
        ),
    ensures
        listen_step(
            old(t)@,
            old(clients)@,
            event,
            now_ms,
            commit,
            final(clients)@,
            acts@.map_values(|a: CaptureAction| a@),
        ),
        !(event is Rejected) ==> final(t)@ == old(t)@,
{
}

/// During a capture each event is handled as its law says.
pub proof fn lemma_events_during_a_capture(
    t: &mut CaptureTask,
    clients: &mut ClientManager,
    event: ListenEvent,
    now_ms: u64,
    commit: [u8; 8],
    step: SessionStep,
)
    requires
        call_ensures(
            CaptureTask::handle_session_event,
            (t, clients, event, now_ms, commit),
            step,
        ),
    ensures
        session_step(
            old(t)@,
            old(clients)@,
            event,
            now_ms,
            commit,
            final(t)@,
            final(clients)@,
            step@,
        ),
        step is Release ==> (event matches ListenEvent::Msg { event: e, addr } && e is Leave && old(
            t,
        )@.active_client is Some && old(clients)@.first(QueryView::ActiveAddr(addr)) == old(
            t,
        )@.active_client),
{
}

/// Taking down a handle's barriers leaves the others, in the order they were
/// put up.
pub proof fn lemma_other_barriers_stand_in_order(
    t: &mut CaptureTask,
    h: ClientHandle,
    on: bool,
    step: RequestStep,
)
    requires
        call_ensures(CaptureTask::handle_request, (t, CaptureRequest::Destroy(h), on), step),
    ensures
        final(t)@.captures == old(t)@.captures.filter(|b: Barrier| b.0 != h),
{
    lemma_without_is_filter(old(t)@.captures, h);
}

/// The barriers of other handles are those that are left.
proof fn lemma_without_is_filter(captures: Seq<Barrier>, h: ClientHandle)
    ensures
        super::without(captures, h) == captures.filter(|b: Barrier| b.0 != h),
    decreases captures.len(),
{
    reveal(Seq::filter);
    if captures.len() > 0 {
        lemma_without_is_filter(captures.drop_last(), h);
    }
}

} // verus!
