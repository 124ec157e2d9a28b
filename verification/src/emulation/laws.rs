//! What holds of input emulation whatever comes over the connection.
//!
//! Each law speaks of calls: of what goes into them and what comes out.

use super::{
    idle_work, idle_works, work_views, DialTask, DialWork, DialWorkView, EmulateStep,
    EmulateView, EmulationEvent, EmulationEventView, EmulationRequest, EmulationTask,
    ProxyRequest,
};
use crate::connect::ConnectionEvent;
use crate::ipc::Position;
use crate::net::SocketAddr;
use crate::proto;
use crate::proto::{InputEvent, ProtoEvent};
use vstd::prelude::*;

verus! {

/// The work of a list is its work one by one.
proof fn lemma_work_one_by_one(work: Seq<DialWork>)
    ensures
        work_views(work).len() == work.len(),
        forall|i: int| 0 <= i < work.len() ==> #[trigger] work_views(work)[i] == work[i]@,
{
}

/// While emulation is on, every input of the server, of whatever kind, is
/// emulated as it came, and nothing else is done.
pub proof fn lemma_input_is_emulated(
    t: &mut DialTask,
    addr: SocketAddr,
    input: InputEvent,
    f: Option<String>,
    now_ms: u64,
    work: Vec<DialWork>,
)
    requires
        old(t)@.emulation_active,
        call_ensures(
            DialTask::handle_connection_event,
            (t, ConnectionEvent::Message { addr, event: ProtoEvent::Input(input) }, f, now_ms),
            work,
        ),
    ensures
        work@ == seq![DialWork::Proxy(ProxyRequest::Input(input, addr))],
{
    lemma_work_one_by_one(work@);
    assert(work_views(work@)[0] == work@[0]@);
    assert(work@ =~= seq![DialWork::Proxy(ProxyRequest::Input(input, addr))]);
}

/// While emulation is off, input of the server is dropped.
pub proof fn lemma_input_is_dropped(
    t: &mut DialTask,
    addr: SocketAddr,
    input: InputEvent,
    f: Option<String>,
    now_ms: u64,
    work: Vec<DialWork>,
)
    requires
        !old(t)@.emulation_active,
        call_ensures(
            DialTask::handle_connection_event,
            (t, ConnectionEvent::Message { addr, event: ProtoEvent::Input(input) }, f, now_ms),
            work,
        ),
    ensures
        work@.len() == 0,
{
    lemma_work_one_by_one(work@);
}

/// A pointer that enters is acknowledged to the server, after this machine's
/// own capture was let go, and the service learns at which edge it entered.
/// Where the connection is gone already nothing is done.
pub proof fn lemma_entering_is_acknowledged(
    t: &mut DialTask,
    addr: SocketAddr,
    pos: proto::Position,
    f: Option<String>,
    now_ms: u64,
    work: Vec<DialWork>,
)
    requires
        call_ensures(
            DialTask::handle_connection_event,
            (t, ConnectionEvent::Message { addr, event: ProtoEvent::Enter(pos) }, f, now_ms),
            work,
        ),
    ensures
        match f {
            Some(name) => {
                &&& work@.len() == 3
                &&& work@[0] == DialWork::Tell(EmulationEvent::ReleaseNotify)
                &&& work@[1] == DialWork::Reply(addr, ProtoEvent::Ack(0))
                &&& work@[2] matches DialWork::Tell(
                    EmulationEvent::Entered { addr: a, pos: p, fingerprint },
                ) && a == addr && fingerprint@ == name@ && p == match pos {
                    proto::Position::Left => Position::Left,
                    proto::Position::Right => Position::Right,
                    proto::Position::Top => Position::Top,
                    proto::Position::Bottom => Position::Bottom,
                }
            },
            None => work@.len() == 0,
        },
{
    lemma_work_one_by_one(work@);
    if f is Some {
        assert(work_views(work@)[0] == work@[0]@);
        assert(work_views(work@)[1] == work@[1]@);
        assert(work_views(work@)[2] == work@[2]@);
    }
}

/// When the pointer leaves, the keys that the server holds are released and
/// the leaving is acknowledged.
pub proof fn lemma_leaving_is_acknowledged(
    t: &mut DialTask,
    addr: SocketAddr,
    n: u32,
    f: Option<String>,
    now_ms: u64,
    work: Vec<DialWork>,
)
    requires
        call_ensures(
            DialTask::handle_connection_event,
            (t, ConnectionEvent::Message { addr, event: ProtoEvent::Leave(n) }, f, now_ms),
            work,
        ),
    ensures
        work@ == seq![
            DialWork::Proxy(ProxyRequest::Remove(addr)),
            DialWork::Reply(addr, ProtoEvent::Ack(0)),
        ],
{
    lemma_work_one_by_one(work@);
    assert(work_views(work@)[0] == work@[0]@);
    assert(work_views(work@)[1] == work@[1]@);
    assert(work@ =~= seq![
        DialWork::Proxy(ProxyRequest::Remove(addr)),
        DialWork::Reply(addr, ProtoEvent::Ack(0)),
    ]);
}

/// A probe is answered with whether input is emulated.
pub proof fn lemma_probe_is_answered(
    t: &mut DialTask,
    addr: SocketAddr,
    f: Option<String>,
    now_ms: u64,
    work: Vec<DialWork>,
)
    requires
        call_ensures(
            DialTask::handle_connection_event,
            (t, ConnectionEvent::Message { addr, event: ProtoEvent::Ping }, f, now_ms),
            work,
        ),
    ensures
        work@ == seq![DialWork::Reply(addr, ProtoEvent::Pong(old(t)@.emulation_active))],
{
    lemma_work_one_by_one(work@);
    assert(work_views(work@)[0] == work@[0]@);
    assert(work@ =~= seq![DialWork::Reply(addr, ProtoEvent::Pong(old(t)@.emulation_active))]);
}

/// Messages of other kinds are not acted upon.
pub proof fn lemma_other_messages_do_nothing(
    t: &mut DialTask,
    addr: SocketAddr,
    event: ProtoEvent,
    f: Option<String>,
    now_ms: u64,
    work: Vec<DialWork>,
)
    requires
        event is Ack || event is Pong || event is Hello,
        call_ensures(
            DialTask::handle_connection_event,
            (t, ConnectionEvent::Message { addr, event }, f, now_ms),
            work,
        ),
    ensures
        work@.len() == 0,
{
    lemma_work_one_by_one(work@);
}

/// The service learns of a connection that came about, with the server's
/// fingerprint.
pub proof fn lemma_connection_is_told(
    t: &mut DialTask,
    addr: SocketAddr,
    name: String,
    f: Option<String>,
    now_ms: u64,
    work: Vec<DialWork>,
)
    requires
        call_ensures(
            DialTask::handle_connection_event,
            (t, ConnectionEvent::Connected { addr, fingerprint: name }, f, now_ms),
            work,
        ),
    ensures
        work@.len() == 1,
        work@[0] matches DialWork::Tell(EmulationEvent::Connected { addr: a, fingerprint }) && a
            == addr && fingerprint@ == name@,
{
    lemma_work_one_by_one(work@);
    assert(work_views(work@)[0] == work@[0]@);
}

/// When a connection is lost the keys that the server holds are released, and
/// the service learns of it; the address is forgotten, and no other.
pub proof fn lemma_lost_connection_is_told(
    t: &mut DialTask,
    addr: SocketAddr,
    f: Option<String>,
    now_ms: u64,
    work: Vec<DialWork>,
)
    requires
        call_ensures(
            DialTask::handle_connection_event,
            (t, ConnectionEvent::Disconnected { addr }, f, now_ms),
            work,
        ),
    ensures
        work@ == seq![
            DialWork::Proxy(ProxyRequest::Remove(addr)),
            DialWork::Tell(EmulationEvent::Disconnected { addr }),
        ],
        final(t)@.last_response == old(t)@.last_response.remove(addr),
        final(t)@.emulation_active == old(t)@.emulation_active,
{
    lemma_work_one_by_one(work@);
    assert(work_views(work@)[0] == work@[0]@);
    assert(work_views(work@)[1] == work@[1]@);
    assert(work@ =~= seq![
        DialWork::Proxy(ProxyRequest::Remove(addr)),
        DialWork::Tell(EmulationEvent::Disconnected { addr }),
    ]);
}

/// Whatever is heard from an address is noted with its time, and nothing else
/// of what is known changes.
pub proof fn lemma_time_is_noted(
    t: &mut DialTask,
    addr: SocketAddr,
    e: ConnectionEvent,
    f: Option<String>,
    now_ms: u64,
    work: Vec<DialWork>,
)
    requires
        match e {
            ConnectionEvent::Message { addr: a, .. } => a == addr,
            ConnectionEvent::PeerAlive { addr: a } => a == addr,
            ConnectionEvent::Connected { addr: a, .. } => a == addr,
            ConnectionEvent::Disconnected { .. } => false,
        },
        call_ensures(DialTask::handle_connection_event, (t, e, f, now_ms), work),
    ensures
        final(t)@.last_response == old(t)@.last_response.insert(addr, now_ms),
        final(t)@.emulation_active == old(t)@.emulation_active,
        e is PeerAlive ==> work@.len() == 0,
{
    lemma_work_one_by_one(work@);
}

/// Whether input is emulated is what the task that emulates told last.
pub proof fn lemma_emulation_is_noted(t: &mut DialTask, e: &EmulationEvent)
    requires
        call_ensures(DialTask::handle_proxy_event, (t, e), ()),
    ensures
        *e is EmulationEnabled ==> final(t)@.emulation_active,
        *e is EmulationDisabled ==> !final(t)@.emulation_active,
        !(*e is EmulationEnabled) && !(*e is EmulationDisabled) ==> final(t)@ == old(t)@,
        final(t)@.last_response == old(t)@.last_response,
{
}

/// Each request is handed to who can do it, as it is.
pub proof fn lemma_requests_are_passed_on(t: &DialTask, r: EmulationRequest, work: DialWork)
    requires
        call_ensures(DialTask::handle_request, (t, r), work),
    ensures
        match r {
            EmulationRequest::Reenable => work == DialWork::Proxy(ProxyRequest::Reenable),
            EmulationRequest::SetEnabled(on) => work == DialWork::Proxy(
                ProxyRequest::SetEnabled(on),
            ),
            EmulationRequest::Release(addr) => work == DialWork::Reply(addr, ProtoEvent::Leave(0)),
            EmulationRequest::SetServer(None) => work == DialWork::SetServer(None),
            EmulationRequest::SetServer(Some(s)) => work matches DialWork::SetServer(Some(d)) && {
                &&& d.ips@ == s.ips@
                &&& d.port == s.port
            },
            EmulationRequest::TestConnection { request_id, hostname, port } => work matches
                DialWork::TestConnection { request_id: i, hostname: h, port: p } && i == request_id
                && h@ == hostname@ && p == port,
            EmulationRequest::Terminate => work == DialWork::Terminate,
        },
{
}

/// What is done about one server of a list that were silent for long.
proof fn lemma_idle_works(addrs: Seq<SocketAddr>, i: int)
    requires
        0 <= i < addrs.len(),
    ensures
        idle_works(addrs).len() == 3 * addrs.len(),
        idle_works(addrs)[3 * i] == DialWorkView::Proxy(ProxyRequest::Remove(addrs[i])),
        idle_works(addrs)[3 * i + 1] == DialWorkView::Close(addrs[i]),
        idle_works(addrs)[3 * i + 2] == DialWorkView::Tell(
            EmulationEventView::Disconnected { addr: addrs[i] },
        ),
    decreases addrs.len(),
{
    let init = addrs.drop_last();
    let w = idle_work(addrs.last());
    assert(w.len() == 3);
    if init.len() > 0 {
        lemma_idle_works(init, if i < init.len() {
            i
        } else {
            0
        });
    } else {
        assert(idle_works(init) =~= seq![]);
    }
    let all = idle_works(init);
    assert(all.len() == 3 * init.len());
    assert(idle_works(addrs) == all + w);
    if i < init.len() {
        assert((all + w)[3 * i] == all[3 * i]);
        assert((all + w)[3 * i + 1] == all[3 * i + 1]);
        assert((all + w)[3 * i + 2] == all[3 * i + 2]);
        assert(addrs[i] == init[i]);
    } else {
        assert((all + w)[3 * i] == w[0]);
        assert((all + w)[3 * i + 1] == w[1]);
        assert((all + w)[3 * i + 2] == w[2]);
    }
}

/// A server that was silent for more than 45 seconds is given up: the keys it
/// holds are released, the connection is closed, and the service is told, in
/// this order. It is forgotten.
pub proof fn lemma_silent_server_is_given_up(
    t: &mut DialTask,
    addr: SocketAddr,
    now_ms: u64,
    work: Vec<DialWork>,
)
    requires
        old(t)@.last_response.contains_key(addr),
        old(t)@.last_response[addr] + 45_000 < now_ms,
        call_ensures(DialTask::tick, (t, now_ms), work),
    ensures
        !final(t)@.last_response.contains_key(addr),
        exists|i: int|
            {
                &&& 0 <= i && i + 2 < work@.len()
                &&& #[trigger] work@[i] == DialWork::Proxy(ProxyRequest::Remove(addr))
                &&& work@[i + 1] == DialWork::Close(addr)
                &&& work@[i + 2] == DialWork::Tell(EmulationEvent::Disconnected { addr })
            },
{
    let gone = choose|gone: Seq<SocketAddr>|
        {
            &&& gone.no_duplicates()
            &&& forall|a: SocketAddr| #[trigger] gone.contains(a) <==> old(t)@.idle(a, now_ms)
            &&& work_views(work@) == #[trigger] idle_works(gone)
        };
    assert(gone.contains(addr));
    let n = gone.index_of(addr);
    lemma_idle_works(gone, n);
    lemma_work_one_by_one(work@);
    let i = 3 * n;
    assert(work_views(work@)[i] == work@[i]@);
    assert(work_views(work@)[i + 1] == work@[i + 1]@);
    assert(work_views(work@)[i + 2] == work@[i + 2]@);
    assert(work@[i] == DialWork::Proxy(ProxyRequest::Remove(addr)));
}

/// A server that was heard from within 45 seconds is kept, and nothing is
/// done about it.
pub proof fn lemma_heard_server_is_kept(
    t: &mut DialTask,
    addr: SocketAddr,
    now_ms: u64,
    work: Vec<DialWork>,
    i: int,
)
    requires
        old(t)@.last_response.contains_key(addr),
        now_ms <= old(t)@.last_response[addr] + 45_000,
        0 <= i < work@.len(),
        call_ensures(DialTask::tick, (t, now_ms), work),
    ensures
        final(t)@.last_response.contains_key(addr),
        final(t)@.last_response[addr] == old(t)@.last_response[addr],
        final(t)@.emulation_active == old(t)@.emulation_active,
        work@[i] != DialWork::Close(addr),
        work@[i] != DialWork::Proxy(ProxyRequest::Remove(addr)),
        work@[i] != DialWork::Tell(EmulationEvent::Disconnected { addr }),
{
    let gone = choose|gone: Seq<SocketAddr>|
        {
            &&& gone.no_duplicates()
            &&& forall|a: SocketAddr| #[trigger] gone.contains(a) <==> old(t)@.idle(a, now_ms)
            &&& work_views(work@) == #[trigger] idle_works(gone)
        };
    assert(!gone.contains(addr));
    assert(final(t)@.last_response.contains_key(addr));
    lemma_work_one_by_one(work@);
    if gone.len() > 0 {
        lemma_idle_works(gone, 0);
        let n = i / 3;
        lemma_idle_works(gone, n);
        assert(gone.contains(gone[n]));
        assert(i == 3 * n || i == 3 * n + 1 || i == 3 * n + 2);
        assert(work_views(work@)[i] == work@[i]@);
    } else {
        assert(work_views(work@).len() == 0);
    }
}

/// A new task has heard nothing and does not emulate.
pub proof fn lemma_new_dial_task(t: DialTask)
    requires
        call_ensures(DialTask::new, (), t),
    ensures
        t@.last_response == Map::<SocketAddr, u64>::empty(),
        !t@.emulation_active,
{
}

/// While emulating, input of someone known is emulated, as it is, under the
/// handle that they have; nothing else changes.
pub proof fn lemma_known_sender_keeps_the_handle(
    t: &mut EmulationTask,
    input: InputEvent,
    addr: SocketAddr,
    step: EmulateStep,
)
    requires
        old(t)@.handles.contains_key(addr),
        call_ensures(
            EmulationTask::handle_request,
            (t, ProxyRequest::Input(input, addr), true),
            step,
        ),
    ensures
        step == (EmulateStep::Consume {
            event: input,
            handle: old(t)@.handles[addr],
            create: false,
        }),
        final(t)@ == old(t)@,
{
}

/// While emulating, input of someone new is emulated, as it is, under a
/// handle that is created and theirs from then on.
pub proof fn lemma_new_sender_gets_a_handle(
    t: &mut EmulationTask,
    input: InputEvent,
    addr: SocketAddr,
    step: EmulateStep,
)
    requires
        !old(t)@.handles.contains_key(addr),
        old(t)@.next_id < u64::MAX,
        old(t)@.wf(),
        call_ensures(
            EmulationTask::handle_request,
            (t, ProxyRequest::Input(input, addr), true),
            step,
        ),
    ensures
        step matches EmulateStep::Consume { event, handle, create } && {
            &&& event == input
            &&& create
            &&& final(t)@.handles == old(t)@.handles.insert(addr, handle)
            &&& forall|a: SocketAddr| #[trigger]
                old(t)@.handles.contains_key(a) ==> old(t)@.handles[a] != handle
            &&& handle < final(t)@.next_id
        },
        final(t)@.enabled == old(t)@.enabled,
{
}

/// While emulating, someone who leaves gives up their handle, and nobody else
/// does.
pub proof fn lemma_leaving_gives_up_the_handle(
    t: &mut EmulationTask,
    addr: SocketAddr,
    step: EmulateStep,
)
    requires
        call_ensures(EmulationTask::handle_request, (t, ProxyRequest::Remove(addr), true), step),
    ensures
        step == if old(t)@.handles.contains_key(addr) {
            EmulateStep::Destroy(old(t)@.handles[addr])
        } else {
            EmulateStep::Nothing
        },
        final(t)@.handles == old(t)@.handles.remove(addr),
        final(t)@.enabled == old(t)@.enabled,
        final(t)@.next_id == old(t)@.next_id,
{
}

/// While nothing is emulated, input and leaving come to nothing.
pub proof fn lemma_nothing_while_off(t: &mut EmulationTask, r: ProxyRequest, step: EmulateStep)
    requires
        r is Input || r is Remove,
        call_ensures(EmulationTask::handle_request, (t, r, false), step),
    ensures
        step == EmulateStep::Nothing,
        final(t)@ == old(t)@,
{
}

/// Emulating is begun where it is asked for and not going on, stopped where
/// it is to stop and going on, and the task remembers what is wanted.
pub proof fn lemma_emulation_is_switched(
    t: &mut EmulationTask,
    on: bool,
    emulating: bool,
    step: EmulateStep,
)
    requires
        call_ensures(
            EmulationTask::handle_request,
            (t, ProxyRequest::SetEnabled(on), emulating),
            step,
        ),
    ensures
        on && !emulating ==> step == EmulateStep::Begin,
        !on && emulating ==> step == EmulateStep::Stop,
        on == emulating ==> step == EmulateStep::Nothing && final(t)@ == old(t)@,
        on != emulating ==> final(t)@.enabled == on,
        final(t)@.handles == old(t)@.handles,
        final(t)@.next_id == old(t)@.next_id,
{
}

/// Emulating begins again where it is not going on, and the task ends where
/// that is asked.
pub proof fn lemma_emulation_begins_again(
    t: &mut EmulationTask,
    emulating: bool,
    step: EmulateStep,
)
    requires
        call_ensures(EmulationTask::handle_request, (t, ProxyRequest::Reenable, emulating), step),
    ensures
        step == if emulating {
            EmulateStep::Nothing
        } else {
            EmulateStep::Begin
        },
        final(t)@.enabled == (old(t)@.enabled || !emulating),
        final(t)@.handles == old(t)@.handles,
        final(t)@.next_id == old(t)@.next_id,
{
}

/// The task ends where that is asked.
pub proof fn lemma_emulation_task_ends(t: &mut EmulationTask, emulating: bool, step: EmulateStep)
    requires
        call_ensures(EmulationTask::handle_request, (t, ProxyRequest::Terminate, emulating), step),
    ensures
        step == EmulateStep::Exit,
        final(t)@ == old(t)@,
{
}

/// When emulating ended it is not wanted any more; the handles are kept for
/// when it begins again, and all of them are created then.
pub proof fn lemma_handles_outlive_emulation(
    t: &mut EmulationTask,
    u: &EmulationTask,
    on: bool,
    list: Vec<u64>,
    addr: SocketAddr,
)
    requires
        call_ensures(EmulationTask::emulation_ended, (t,), ()),
        u@ == final(t)@,
        call_ensures(EmulationTask::enabled, (u,), on),
        call_ensures(EmulationTask::handles, (u,), list),
    ensures
        !on,
        u@.handles == old(t)@.handles,
        u@.next_id == old(t)@.next_id,
        old(t)@.handles.contains_key(addr) ==> list@.contains(old(t)@.handles[addr]),
{
    let m = old(t)@.handles;
    if m.contains_key(addr) {
        let addrs = choose|addrs: Seq<SocketAddr>|
            addrs.no_duplicates() && addrs.to_set() == m.dom() && list@
                == #[trigger] crate::net::numbers_of(m, addrs);
        assert(addrs.to_set().contains(addr));
        let i = addrs.index_of(addr);
        assert(list@[i] == m[addr]);
    }
}

/// Whether there is a number left for a request: there always is, but for
/// input of someone new when all were given out.
pub proof fn lemma_numbers_run_out(
    t: &EmulationTask,
    r: ProxyRequest,
    emulating: bool,
    room: bool,
    any: bool,
)
    requires
        call_ensures(EmulationTask::has_number_for, (t, r, emulating), room),
        call_ensures(EmulationTask::has_numbers, (t,), any),
    ensures
        any <==> t@.next_id != u64::MAX,
        !room <==> emulating && !any && (r matches ProxyRequest::Input(_, addr)
            && !t@.handles.contains_key(addr)),
{
}

/// A new task has no handles, and wants what it is told.
pub proof fn lemma_new_emulation_task(enabled: bool, t: EmulationTask)
    requires
        call_ensures(EmulationTask::new, (enabled,), t),
    ensures
        t@ == (EmulateView { enabled, handles: Map::empty(), next_id: 0 }),
{
}

/// An edge is known to the service as it came over the wire.
pub proof fn lemma_edges_keep_their_names(p: proto::Position, q: Position)
    requires
        call_ensures(super::to_ipc_pos, (p,), q),
    ensures
        p == proto::Position::Left ==> q == Position::Left,
        p == proto::Position::Right ==> q == Position::Right,
        p == proto::Position::Top ==> q == Position::Top,
        p == proto::Position::Bottom ==> q == Position::Bottom,
{
}

} // verus!
