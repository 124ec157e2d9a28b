//! What pairing a device with an edge comes to.

use super::effects::{lemma_saves_last, saves};
use super::requests::{
    gives_way, lemma_activation, lemma_moving, looked_up, put_up, same_but_clients, switched, told,
};
use super::{ActionView, Service, ServiceView};
use crate::capture::{CaptureType, ICaptureEvent};
use crate::client::{lemma_first_match, slot, ClientView, ManagerView, QueryView};
use crate::ipc::{
    ClientConfig, ClientHandle, ConfigView, FrontendEventView, FrontendRequest, OperationMode,
    Position, StateView,
};
use crate::net::SocketAddr;
use vstd::prelude::*;

verus! {

/// The client of a device that was just paired: it has the fingerprint, the
/// edge and the waiting connection, where there is one, and nothing else.
pub open spec fn paired(m: ManagerView, f: Seq<char>, pos: Position) -> ClientView {
    ClientView {
        config: ConfigView {
            hostname: None,
            fix_ips: seq![],
            port: 4242,
            pos,
            cmd: None,
            fingerprint: Some(f),
        },
        state: StateView {
            active: false,
            active_addr: if m.parked.contains_key(f) {
                Some(m.parked[f])
            } else {
                None
            },
            alive: false,
            dns_ips: seq![],
            ips: Set::empty(),
            has_pressed_keys: false,
            resolving: false,
            peer_commit: None,
        },
    }
}

/// The active client at an edge is the same one beside an inactive client that
/// was not there before.
pub proof fn lemma_inactive_takes_no_edge(
    m: ManagerView,
    n: ManagerView,
    h: ClientHandle,
    pos: Position,
)
    requires
        m.slots.len() <= n.slots.len() <= usize::MAX,
        h < n.slots.len(),
        m.get(h) is None,
        n.get(h) matches Some(c) && !c.state.active,
        forall|k: ClientHandle| slot(k) != slot(h) ==> #[trigger] n.get(k) == m.get(k),
    ensures
        n.first(QueryView::ActiveAt(pos)) == m.first(QueryView::ActiveAt(pos)),
{
    let q = QueryView::ActiveAt(pos);
    lemma_first_match(m.slots, q);
    lemma_first_match(n.slots, q);
    assert forall|k: int| 0 <= k < n.slots.len() && k != h implies #[trigger] n.slots[k] == if k
        < m.slots.len() {
        m.slots[k]
    } else {
        None
    } by {
        assert(slot(k as u64) == k);
        assert(n.get(k as u64) == m.get(k as u64));
    }
    let a = m.first(q);
    let b = n.first(q);
    if a is Some {
        assert(a->0 != h) by {
            assert(slot(h) == h);
        }
        assert(n.slots[a->0 as int] == m.slots[a->0 as int]);
    }
    if b is Some {
        assert(b->0 != h) by {
            assert(slot(h) == h);
        }
        assert(n.slots[b->0 as int] is Some);
        assert(n.slots[b->0 as int] == m.slots[b->0 as int]);
    }
    if a is Some && b is Some {
        assert(!(a->0 < b->0));
        assert(!(b->0 < a->0));
    }
}

/// What pairing a new device comes to.
pub proof fn lemma_pairing(v: ServiceView, f: Seq<char>, pos: Position)
    requires
        v.clients.wf(),
        v.clients.room(1),
        v.clients.first(QueryView::Fingerprint(f)) is None,
    ensures
        ({
            let b = v.assign_position(f, pos);
            let h = v.clients.next_handle();
            let o = v.clients.first(QueryView::ActiveAt(pos));
            let c = paired(v.clients, f, pos);
            let blank = StateView { active_addr: None, ..c.state };
            &&& v.clients.get(h) is None
            &&& same_but_clients(v, b)
            &&& b.clients.get(h) == Some(switched(c, true))
            &&& b.clients.parked == v.clients.parked.remove(f)
            &&& o is Some ==> b.clients.get(o->0) == Some(switched(v.clients.get(o->0)->0, false))
            &&& forall|k: ClientHandle|
                k < v.clients.slots.len() && k != h && Some(k) != o ==> #[trigger] b.clients.get(k)
                    == v.clients.get(k)
            &&& b.actions == v.actions + (seq![
                ActionView::Notify(FrontendEventView::Created(h, c.config, blank)),
            ] + gives_way(v.clients, h, pos) + put_up(v, h, c) + seq![told(h, switched(c, true))])
        }),
{
    reveal(ServiceView::assign_position);
    reveal(ServiceView::adopt_parked);
    reveal(ServiceView::notify_created);
    let h = v.clients.next_handle();
    let c = paired(v.clients, f, pos);
    let blank = StateView { active_addr: None, ..c.state };
    let fresh = ClientView {
        config: crate::ipc::default_config(),
        state: crate::ipc::default_state(),
    };
    v.clients.lemma_insert(fresh);
    assert(fresh.config.fix_ips =~= seq![]);
    assert(fresh.state.dns_ips =~= seq![]);
    let config = ServiceView::paired_config(f, pos);
    assert(config == c.config);
    let added = v.add_with_config(config);
    assert(added.clients.get(h) == Some(ClientView { config: c.config, state: blank }));
    let n = added.notify_created(h);
    let created = seq![ActionView::Notify(FrontendEventView::Created(h, c.config, blank))];
    assert(n.actions =~= v.actions + created);
    let bound = n.adopt_parked(h, f);
    assert(bound.clients.get(h) == Some(c));
    assert(bound.clients.parked =~= v.clients.parked.remove(f));
    lemma_first_match(v.clients.slots, QueryView::ActiveAt(pos));
    lemma_inactive_takes_no_edge(v.clients, bound.clients, h, pos);
    lemma_activation(bound, h, c);
    let o = v.clients.first(QueryView::ActiveAt(pos));
    if o is Some {
        assert(o->0 != h);
        assert(bound.clients.get(o->0) == v.clients.get(o->0));
    }
    assert(gives_way(bound.clients, h, pos) == gives_way(v.clients, h, pos));
    assert(put_up(bound, h, c) == put_up(v, h, c));
    assert(looked_up(h, c) =~= seq![]);
    let b = v.assign_position(f, pos);
    assert(b.actions =~= v.actions + (created + gives_way(v.clients, h, pos) + put_up(v, h, c)
        + seq![told(h, switched(c, true))]));
    assert forall|k: ClientHandle|
        k < v.clients.slots.len() && k != h && Some(k) != o implies #[trigger] b.clients.get(k)
            == v.clients.get(k) by {
        assert(bound.clients.get(k) == v.clients.get(k));
    }
}

/// A device that the user gives an edge, and that has no client yet, gets one
/// there: paired with it, active, and with the connection that waited. Any
/// other client at the edge gives way, a server puts up the barrier, all of it
/// is told and kept.
pub proof fn lemma_device_is_paired(s: &mut Service, f: String, pos: Position)
    requires
        old(s)@.clients.wf(),
        old(s)@.clients.room(1),
        old(s)@.clients.first(QueryView::Fingerprint(f@)) is None,
        call_ensures(
            Service::handle_frontend_request,
            (s, FrontendRequest::AssignPosition { fingerprint: f, pos }),
            (),
        ),
    ensures
        ({
            let a = old(s)@;
            let b = final(s)@;
            let h = a.clients.next_handle();
            let o = a.clients.first(QueryView::ActiveAt(pos));
            let c = paired(a.clients, f@, pos);
            let blank = StateView { active_addr: None, ..c.state };
            &&& a.clients.get(h) is None
            &&& same_but_clients(a, b)
            &&& b.clients.get(h) == Some(switched(c, true))
            &&& b.clients.parked == a.clients.parked.remove(f@)
            &&& o is Some ==> b.clients.get(o->0) == Some(switched(a.clients.get(o->0)->0, false))
            &&& forall|k: ClientHandle|
                k < a.clients.slots.len() && k != h && Some(k) != o ==> #[trigger] b.clients.get(k)
                    == a.clients.get(k)
            &&& saves(
                a,
                b,
                seq![ActionView::Notify(FrontendEventView::Created(h, c.config, blank))]
                    + gives_way(a.clients, h, pos) + put_up(a, h, c) + seq![
                    told(h, switched(c, true)),
                ],
            )
        }),
{
    let a = old(s)@;
    lemma_pairing(a, f@, pos);
    let h = a.clients.next_handle();
    let c = paired(a.clients, f@, pos);
    let blank = StateView { active_addr: None, ..c.state };
    lemma_saves_last(
        a,
        a.assign_position(f@, pos),
        seq![ActionView::Notify(FrontendEventView::Created(h, c.config, blank))] + gives_way(
            a.clients,
            h,
            pos,
        ) + put_up(a, h, c) + seq![told(h, switched(c, true))],
    );
}

/// A device that connects to a server that has an edge left, and that has no
/// client yet, gets one at the first edge without a client, as if the user had
/// chosen that edge: the barrier goes up, and nobody is asked.
pub proof fn lemma_device_takes_the_free_edge(
    s: &mut Service,
    addr: SocketAddr,
    f: String,
    pos: Position,
)
    requires
        old(s)@.mode == OperationMode::Server,
        old(s)@.clients.wf(),
        old(s)@.clients.room(1),
        old(s)@.clients.first_free_position() == Some(pos),
        old(s)@.clients.first(QueryView::Fingerprint(f@)) is None,
        call_ensures(
            Service::handle_capture_event,
            (s, ICaptureEvent::DeviceConnected { addr, fingerprint: f }),
            (),
        ),
    ensures
        ({
            let a = old(s)@;
            let b = final(s)@;
            let h = a.clients.next_handle();
            let c = paired(a.clients, f@, pos);
            let blank = StateView { active_addr: None, ..c.state };
            &&& a.clients.get(h) is None
            &&& same_but_clients(a, b)
            &&& b.clients.get(h) == Some(switched(c, true))
            &&& b.clients.parked == a.clients.parked.remove(f@)
            &&& forall|k: ClientHandle|
                k < a.clients.slots.len() && k != h ==> #[trigger] b.clients.get(k)
                    == a.clients.get(k)
            &&& saves(
                a,
                b,
                seq![
                    ActionView::Notify(FrontendEventView::Created(h, c.config, blank)),
                    ActionView::CaptureCreate(h, pos, CaptureType::Default),
                    told(h, switched(c, true)),
                    told(h, switched(c, true)),
                ],
            )
        }),
{
    let a = old(s)@;
    lemma_pairing(a, f@, pos);
    let h = a.clients.next_handle();
    let c = paired(a.clients, f@, pos);
    let blank = StateView { active_addr: None, ..c.state };
    lemma_first_match(a.clients.slots, QueryView::At(pos));
    lemma_first_match(a.clients.slots, QueryView::ActiveAt(pos));
    let o = a.clients.first(QueryView::ActiveAt(pos));
    assert(a.clients.first(QueryView::At(pos)) is None);
    if o is Some {
        assert(a.clients.slots[o->0 as int] is Some);
    }
    let acts = seq![
        ActionView::Notify(FrontendEventView::Created(h, c.config, blank)),
        ActionView::CaptureCreate(h, pos, CaptureType::Default),
        told(h, switched(c, true)),
        told(h, switched(c, true)),
    ];
    let m = a.assign_position(f@, pos);
    assert(m.actions =~= a.actions + acts);
    lemma_saves_last(a, m, acts);
}

/// A device that has a client already, and that the user gives an edge, moves
/// there with the connection that waited, where one did, and is active; the
/// frontends learn of it, and it is kept.
pub proof fn lemma_paired_device_moves(
    s: &mut Service,
    f: String,
    pos: Position,
    h: ClientHandle,
    c: ClientView,
)
    requires
        old(s)@.clients.wf(),
        old(s)@.clients.first(QueryView::Fingerprint(f@)) == Some(h),
        old(s)@.clients.get(h) == Some(c),
        call_ensures(
            Service::handle_frontend_request,
            (s, FrontendRequest::AssignPosition { fingerprint: f, pos }),
            (),
        ),
    ensures
        ({
            let a = old(s)@;
            let b = final(s)@;
            let d = ClientView {
                config: ConfigView { pos, ..c.config },
                state: StateView {
                    active: true,
                    active_addr: if a.clients.parked.contains_key(f@) {
                        Some(a.clients.parked[f@])
                    } else {
                        c.state.active_addr
                    },
                    ..c.state
                },
            };
            let n = b.actions.len() as int;
            &&& same_but_clients(a, b)
            &&& b.clients.get(h) == Some(d)
            &&& b.clients.parked == a.clients.parked.remove(f@)
            &&& n >= 2 && b.actions[n - 2] == told(h, d)
            &&& saves(a, b, b.actions.subrange(a.actions.len() as int, n - 1))
            &&& !c.state.active ==> saves(
                a,
                b,
                seq![told(h, ClientView { config: d.config, state: c.state })] + looked_up(h, c)
                    + gives_way(a.clients, h, pos) + put_up(a, h, switched(d, false)) + seq![
                    told(h, d),
                ],
            )
        }),
{
    let a = old(s)@;
    lemma_first_match(a.clients.slots, QueryView::Fingerprint(f@));
    lemma_moving_paired(a, h, c, f@, pos);
    let g = with_waiting(a.clients, ClientView { config: ConfigView { pos, ..c.config }, ..c }, f@);
    let d = switched(g, true);
    let m = a.assign_position(f@, pos);
    let acts = m.actions.skip(a.actions.len() as int);
    assert(m.actions =~= a.actions + acts) by {
        assert(m.actions.take(a.actions.len() as int) == a.actions);
        assert forall|i: int| 0 <= i < a.actions.len() implies m.actions[i] == a.actions[i] by {
            assert(m.actions.take(a.actions.len() as int)[i] == m.actions[i]);
        }
    }
    lemma_saves_last(a, m, acts);
    let b = final(s)@;
    assert(b.actions.subrange(a.actions.len() as int, b.actions.len() - 1) =~= acts);
    if !c.state.active {
        let e = ClientView { config: ConfigView { pos, ..c.config }, ..c };
        let list = seq![told(h, e)] + looked_up(h, c) + gives_way(a.clients, h, pos) + put_up(
            a,
            h,
            g,
        ) + seq![told(h, d)];
        assert(acts =~= list);
        assert(switched(d, false) == g);
    }
}

/// A device that connects to a server that has an edge left, and that has a
/// client already, moves there as if the user had chosen that edge.
pub proof fn lemma_known_device_takes_the_free_edge(
    s: &mut Service,
    addr: SocketAddr,
    f: String,
    pos: Position,
    t: &mut Service,
)
    requires
        old(s)@.mode == OperationMode::Server,
        old(s)@.clients.first_free_position() == Some(pos),
        old(t)@ == old(s)@,
        call_ensures(
            Service::handle_capture_event,
            (s, ICaptureEvent::DeviceConnected { addr, fingerprint: f }),
            (),
        ),
        call_ensures(
            Service::handle_frontend_request,
            (t, FrontendRequest::AssignPosition { fingerprint: f, pos }),
            (),
        ),
    ensures
        final(s)@ == final(t)@,
{
}

/// A client with the connection of a device that waits, where it does.
pub open spec fn with_waiting(m: ManagerView, c: ClientView, f: Seq<char>) -> ClientView {
    if m.parked.contains_key(f) {
        ClientView { state: StateView { active_addr: Some(m.parked[f]), ..c.state }, ..c }
    } else {
        c
    }
}

/// What becomes of a client that moves.
proof fn lemma_moved(v: ServiceView, h: ClientHandle, c: ClientView, pos: Position)
    requires
        v.clients.slots.len() <= usize::MAX,
        h < v.clients.slots.len(),
        v.clients.get(h) == Some(c),
    ensures
        ({
            let b = v.update_pos(h, pos);
            let e = ClientView { config: ConfigView { pos, ..c.config }, ..c };
            &&& same_but_clients(v, b)
            &&& b.clients.get(h) == Some(e)
            &&& b.clients.parked == v.clients.parked
            &&& b.clients.slots.len() == v.clients.slots.len()
            &&& b.actions.len() > v.actions.len()
            &&& b.actions.take(v.actions.len() as int) == v.actions
            &&& !c.state.active ==> b.actions == v.actions + seq![told(h, e)] && forall|k: int|
                0 <= k < v.clients.slots.len() && k != h ==> #[trigger] b.clients.slots[k]
                    == v.clients.slots[k]
        }),
{
    let b = v.update_pos(h, pos);
    let e = ClientView { config: ConfigView { pos, ..c.config }, ..c };
    if c.state.active && c.config.pos != pos {
        lemma_moving(v, h, c, pos);
    } else {
        reveal(ServiceView::update_pos);
        assert(b.actions =~= v.actions + seq![told(h, e)]);
    }
    assert(b.actions.take(v.actions.len() as int) =~= v.actions);
}

/// What becomes of a client that takes over a waiting connection.
proof fn lemma_adopted(v: ServiceView, h: ClientHandle, c: ClientView, f: Seq<char>)
    requires
        v.clients.slots.len() <= usize::MAX,
        h < v.clients.slots.len(),
        v.clients.get(h) == Some(c),
    ensures
        ({
            let b = v.adopt_parked(h, f);
            &&& b == (ServiceView { clients: b.clients, ..v })
            &&& b.clients.get(h) == Some(with_waiting(v.clients, c, f))
            &&& b.clients.parked == v.clients.parked.remove(f)
            &&& b.clients.slots.len() == v.clients.slots.len()
            &&& forall|k: int|
                0 <= k < v.clients.slots.len() && k != h ==> #[trigger] b.clients.slots[k]
                    == v.clients.slots[k]
        }),
{
    reveal(ServiceView::adopt_parked);
}

/// What becomes of a client that moves, takes over a waiting connection, and
/// is made active.
proof fn lemma_moving_paired(
    v: ServiceView,
    h: ClientHandle,
    c: ClientView,
    f: Seq<char>,
    pos: Position,
)
    requires
        v.clients.slots.len() <= usize::MAX,
        h < v.clients.slots.len(),
        v.clients.get(h) == Some(c),
        v.clients.first(QueryView::Fingerprint(f)) == Some(h),
    ensures
        ({
            let b = v.assign_position(f, pos);
            let e = ClientView { config: ConfigView { pos, ..c.config }, ..c };
            let d = switched(with_waiting(v.clients, e, f), true);
            &&& same_but_clients(v, b)
            &&& b.clients.get(h) == Some(d)
            &&& b.clients.parked == v.clients.parked.remove(f)
            &&& b.actions.len() > v.actions.len()
            &&& b.actions.take(v.actions.len() as int) == v.actions
            &&& b.actions.last() == told(h, d)
            &&& !c.state.active ==> b.actions == v.actions + (seq![told(h, e)] + looked_up(h, c)
                + gives_way(v.clients, h, pos) + put_up(v, h, with_waiting(v.clients, e, f)) + seq![
                told(h, d),
            ])
        }),
{
    reveal(ServiceView::assign_position);
    let e = ClientView { config: ConfigView { pos, ..c.config }, ..c };
    let g = with_waiting(v.clients, e, f);
    let d = switched(g, true);
    let moved = v.update_pos(h, pos);
    lemma_moved(v, h, c, pos);
    let bound = moved.adopt_parked(h, f);
    lemma_adopted(moved, h, e, f);
    lemma_activation(bound, h, g);
    let active = bound.activate_client(h);
    let b = v.assign_position(f, pos);
    assert(b == active.broadcast_client(h));
    assert(b.actions =~= active.actions.push(told(h, d)));
    assert(b.actions.take(v.actions.len() as int) =~= v.actions) by {
        assert forall|i: int| 0 <= i < v.actions.len() implies b.actions[i] == v.actions[i] by {
            assert(moved.actions.take(v.actions.len() as int)[i] == moved.actions[i]);
        }
    }
    if !c.state.active {
        assert forall|k: int| 0 <= k < v.clients.slots.len() && k != h implies #[trigger]
            bound.clients.slots[k] == v.clients.slots[k] by {
            assert(bound.clients.slots[k] == moved.clients.slots[k]);
        }
        lemma_same_occupant(v.clients, bound.clients, h, pos);
        let o = v.clients.first(QueryView::ActiveAt(pos));
        assert(gives_way(bound.clients, h, pos) == gives_way(v.clients, h, pos)) by {
            if o is Some && o != Some(h) {
                lemma_first_match(v.clients.slots, QueryView::ActiveAt(pos));
                assert(bound.clients.slots[o->0 as int] == v.clients.slots[o->0 as int]);
                assert(bound.clients.get(o->0) == v.clients.get(o->0));
            }
        }
        assert(put_up(bound, h, g) == put_up(v, h, g));
        assert(looked_up(h, g) == looked_up(h, c));
        assert(b.actions =~= v.actions + (seq![told(h, e)] + looked_up(h, c) + gives_way(
            v.clients,
            h,
            pos,
        ) + put_up(v, h, g) + seq![told(h, d)]));
    }
}

/// The active client at an edge is the same one where only an inactive client
/// changed.
proof fn lemma_same_occupant(m: ManagerView, n: ManagerView, h: ClientHandle, pos: Position)
    requires
        m.slots.len() == n.slots.len() <= usize::MAX,
        h < m.slots.len(),
        m.get(h) matches Some(c) && !c.state.active,
        n.get(h) matches Some(c) && !c.state.active,
        forall|k: int| 0 <= k < m.slots.len() && k != h ==> #[trigger] n.slots[k] == m.slots[k],
    ensures
        n.first(QueryView::ActiveAt(pos)) == m.first(QueryView::ActiveAt(pos)),
{
    let q = QueryView::ActiveAt(pos);
    lemma_first_match(m.slots, q);
    lemma_first_match(n.slots, q);
    let a = m.first(q);
    let b = n.first(q);
    if a is Some {
        assert(m.slots[a->0 as int] is Some);
        assert(a->0 != h);
        assert(n.slots[a->0 as int] == m.slots[a->0 as int]);
    }
    if b is Some {
        assert(n.slots[b->0 as int] is Some);
        assert(b->0 != h);
        assert(n.slots[b->0 as int] == m.slots[b->0 as int]);
    }
    if a is Some && b is Some {
        assert(!(a->0 < b->0));
        assert(!(b->0 < a->0));
    }
}

/// A client that is asked for with its configuration, and to be active, is
/// there with it and active; any other at its edge gives way, a server puts up
/// its barrier, all of it is told and kept.
pub proof fn lemma_active_client_is_created(s: &mut Service, config: ClientConfig)
    requires
        old(s)@.clients.wf(),
        old(s)@.clients.room(1),
        call_ensures(
            Service::handle_frontend_request,
            (s, FrontendRequest::CreateConfigured { config, active: true }),
            (),
        ),
    ensures
        ({
            let a = old(s)@;
            let b = final(s)@;
            let h = a.clients.next_handle();
            let o = a.clients.first(QueryView::ActiveAt(config.pos));
            let c = ClientView { config: config@, state: crate::ipc::default_state() };
            &&& a.clients.get(h) is None
            &&& same_but_clients(a, b)
            &&& b.clients.get(h) == Some(switched(c, true))
            &&& b.clients.parked == a.clients.parked
            &&& o is Some ==> b.clients.get(o->0) == Some(switched(a.clients.get(o->0)->0, false))
            &&& forall|k: ClientHandle|
                k < a.clients.slots.len() && k != h && Some(k) != o ==> #[trigger] b.clients.get(k)
                    == a.clients.get(k)
            &&& saves(
                a,
                b,
                looked_up(h, c) + gives_way(a.clients, h, config.pos) + put_up(a, h, c) + seq![
                    ActionView::Notify(
                        FrontendEventView::Created(h, config@, switched(c, true).state),
                    ),
                ],
            )
        }),
{
    reveal(ServiceView::add_configured_client);
    reveal(ServiceView::notify_created);
    let a = old(s)@;
    let h = a.clients.next_handle();
    let fresh = ClientView {
        config: crate::ipc::default_config(),
        state: crate::ipc::default_state(),
    };
    a.clients.lemma_insert(fresh);
    let c = ClientView { config: config@, state: crate::ipc::default_state() };
    let added = a.add_with_config(config@);
    assert(added.clients.get(h) == Some(c));
    lemma_first_match(a.clients.slots, QueryView::ActiveAt(config.pos));
    lemma_inactive_takes_no_edge(a.clients, added.clients, h, config.pos);
    lemma_activation(added, h, c);
    let o = a.clients.first(QueryView::ActiveAt(config.pos));
    if o is Some {
        assert(o->0 != h);
        assert(added.clients.get(o->0) == a.clients.get(o->0));
    }
    assert(gives_way(added.clients, h, config.pos) == gives_way(a.clients, h, config.pos));
    assert(put_up(added, h, c) == put_up(a, h, c));
    let m = a.add_configured_client(config@, true);
    let acts = looked_up(h, c) + gives_way(a.clients, h, config.pos) + put_up(a, h, c) + seq![
        ActionView::Notify(FrontendEventView::Created(h, config@, switched(c, true).state)),
    ];
    assert(m.actions =~= a.actions + acts);
    lemma_saves_last(a, m, acts);
    let b = final(s)@;
    assert forall|k: ClientHandle|
        k < a.clients.slots.len() && k != h && Some(k) != o implies #[trigger] b.clients.get(k)
            == a.clients.get(k) by {
        assert(added.clients.get(k) == a.clients.get(k));
        assert(m.clients.get(k) == a.clients.get(k));
    }
}

} // verus!
