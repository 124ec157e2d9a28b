//! What holds of the service whatever it is asked and told.

use super::{incoming_index, lemma_incoming_index, ActionView, DnsEvent, EndpointView};
use super::{IncomingView, SavedView, ServiceView, ENTER_HANDLE_BEGIN};
use crate::capture::{CaptureType, ICaptureEvent};
use crate::client::{configured_client, slot, ClientView, ConfigClientView, ManagerView, QueryView};
use crate::emulation::EmulationEvent;
use crate::ipc::{ClientHandle, ConfigView, FrontendRequest, OperationMode, Position, StateView};
use crate::ipc::{FrontendEventView, Status};
use crate::net::SocketAddr;
use vstd::prelude::*;

verus! {

/// The client in a slot is active at an edge.
pub open spec fn active_at(m: ManagerView, i: int, pos: Position) -> bool {
    0 <= i < m.slots.len() && (m.slots[i] matches Some(c) && c.state.active && c.config.pos == pos)
}

/// No two active clients share an edge.
pub open spec fn one_active_per_edge(m: ManagerView) -> bool {
    forall|i: int, j: int, pos: Position| #[trigger]
        active_at(m, i, pos) && #[trigger] active_at(m, j, pos) ==> i == j
}

/// The clients are in order: handles are, and no two share an edge.
pub open spec fn in_order(m: ManagerView) -> bool {
    m.wf() && one_active_per_edge(m)
}

/// A client is replaced by one that is active at no edge where it was not.
proof fn lemma_set_in_order(m: ManagerView, h: ClientHandle, c: ClientView)
    requires
        in_order(m),
        c.state.active ==> (m.get(h) matches Some(b) && b.state.active && b.config.pos
            == c.config.pos),
    ensures
        in_order(m.set(h, c)),
{
    m.lemma_set_wf(h, c);
    let n = m.set(h, c);
    assert forall|i: int, j: int, pos: Position| #[trigger]
        active_at(n, i, pos) && #[trigger] active_at(n, j, pos) implies i == j by {
        assert(active_at(m, i, pos));
        assert(active_at(m, j, pos));
    }
}

/// A client that is made inactive leaves the clients in order.
proof fn lemma_deactivated_in_order(m: ManagerView, h: ClientHandle)
    requires
        in_order(m),
    ensures
        in_order(m.set_active(h, false)),
{
    if let Some(c) = m.get(h) {
        lemma_set_in_order(
            m,
            h,
            ClientView { state: StateView { active: false, ..c.state }, ..c },
        );
    }
}

/// A client that is made active leaves the clients in order.
proof fn lemma_activated_in_order(v: ServiceView, h: ClientHandle)
    requires
        in_order(v.clients),
    ensures
        in_order(v.activated(h)),
{
    let m = v.clients;
    if let Some(c) = m.get(h) {
        let q = QueryView::ActiveAt(c.config.pos);
        crate::client::lemma_first_match(m.slots, q);
        v.lemma_activated_wf(h);
        let n = v.activated(h);
        match m.first(q) {
            Some(other) if other != h => {
                lemma_deactivated_in_order(m, other);
                let mid = m.set_active(other, false);
                assert(active_at(m, other as int, c.config.pos));
                assert forall|i: int, j: int, pos: Position| #[trigger]
                    active_at(n, i, pos) && #[trigger] active_at(n, j, pos) implies i == j by {
                    if i != slot(h) {
                        assert(active_at(m, i, pos));
                        assert(i != other);
                    }
                    if j != slot(h) {
                        assert(active_at(m, j, pos));
                        assert(j != other);
                    }
                }
            },
            Some(other) => {
                assert(active_at(m, other as int, c.config.pos));
                m.lemma_set_active_same(h, true);
            },
            None => {
                assert forall|i: int, j: int, pos: Position| #[trigger]
                    active_at(n, i, pos) && #[trigger] active_at(n, j, pos) implies i == j by {
                    if i != slot(h) {
                        assert(active_at(m, i, pos));
                        assert(m.slots[i] is Some);
                    }
                    if j != slot(h) {
                        assert(active_at(m, j, pos));
                        assert(m.slots[j] is Some);
                    }
                }
            },
        }
    }
}

/// A new client that is not active leaves the clients in order.
proof fn lemma_inserted_in_order(m: ManagerView, c: ClientView)
    requires
        in_order(m),
        m.room(1),
        !c.state.active,
    ensures
        in_order(m.insert(c)),
{
    m.lemma_insert(c);
    let n = m.insert(c);
    assert forall|i: int, j: int, pos: Position| #[trigger]
        active_at(n, i, pos) && #[trigger] active_at(n, j, pos) implies i == j by {
        assert(active_at(m, i, pos));
        assert(active_at(m, j, pos));
    }
}

/// A client that is removed leaves the clients in order.
proof fn lemma_removed_in_order(m: ManagerView, h: ClientHandle)
    requires
        in_order(m),
    ensures
        in_order(m.remove(h)),
{
    m.lemma_remove(h);
    let n = m.remove(h);
    assert forall|i: int, j: int, pos: Position| #[trigger]
        active_at(n, i, pos) && #[trigger] active_at(n, j, pos) implies i == j by {
        assert(active_at(m, i, pos));
        assert(active_at(m, j, pos));
    }
}

/// Making a client inactive, active, or moving it leaves the clients in
/// order.
proof fn lemma_client_steps_in_order(v: ServiceView, h: ClientHandle, pos: Position)
    requires
        in_order(v.clients),
    ensures
        in_order(v.deactivate_client(h).clients),
        in_order(v.activate_client(h).clients),
        in_order(v.update_pos(h, pos).clients),
        v.deactivate_client(h).clients.slots.len() == v.clients.slots.len(),
        v.activate_client(h).clients.slots.len() == v.clients.slots.len(),
        v.update_pos(h, pos).clients.slots.len() == v.clients.slots.len(),
{
    v.lemma_deactivate_frame(h);
    lemma_deactivated_in_order(v.clients, h);
    v.clients.lemma_set_active_wf(h, false);
    v.lemma_activate_frame(h);
    lemma_activated_in_order(v, h);
    reveal(ServiceView::update_pos);
    let moved = v.with_clients(v.clients.set_pos(h, pos));
    if let Some(c) = v.clients.get(h) {
        let d = ClientView { config: ConfigView { pos, ..c.config }, ..c };
        v.clients.lemma_set_wf(h, d);
        if c.config.pos != pos && c.state.active {
            moved.lemma_deactivate_frame(h);
            let off = moved.deactivate_client(h);
            let e = ClientView { state: StateView { active: false, ..d.state }, ..d };
            lemma_set_in_order(v.clients, h, e);
            assert(off.clients.slots =~= v.clients.set(h, e).slots);
            off.lemma_activate_frame(h);
            lemma_activated_in_order(off, h);
        } else {
            lemma_set_in_order(v.clients, h, d);
        }
    }
}

/// Pairing a device leaves the clients in order.
proof fn lemma_assign_in_order(v: ServiceView, fingerprint: Seq<char>, pos: Position)
    requires
        in_order(v.clients),
        v.pairs_anew(fingerprint) ==> v.clients.room(1),
    ensures
        in_order(v.assign_position(fingerprint, pos).clients),
{
    reveal(ServiceView::assign_position);
    reveal(ServiceView::notify_created);
    match v.clients.first(QueryView::Fingerprint(fingerprint)) {
        Some(h) => {
            lemma_client_steps_in_order(v, h, pos);
            lemma_adopt_in_order(v.update_pos(h, pos), h, fingerprint);
            lemma_client_steps_in_order(
                v.update_pos(h, pos).adopt_parked(h, fingerprint),
                h,
                pos,
            );
        },
        None => {
            let h = v.clients.next_handle();
            let config = ServiceView::paired_config(fingerprint, pos);
            lemma_add_in_order(v, config);
            let added = v.add_with_config(config).notify_created(h);
            lemma_adopt_in_order(added, h, fingerprint);
            lemma_client_steps_in_order(added.adopt_parked(h, fingerprint), h, pos);
        },
    }
}

/// Taking over a waiting connection leaves the clients in order.
proof fn lemma_adopt_in_order(v: ServiceView, h: ClientHandle, fingerprint: Seq<char>)
    requires
        in_order(v.clients),
    ensures
        in_order(v.adopt_parked(h, fingerprint).clients),
{
    reveal(ServiceView::adopt_parked);
    let m = ManagerView { parked: v.clients.parked.remove(fingerprint), ..v.clients };
    assert(in_order(m)) by {
        assert forall|i: int, j: int, p: Position| #[trigger]
            active_at(m, i, p) && #[trigger] active_at(m, j, p) implies i == j by {
            assert(active_at(v.clients, i, p));
            assert(active_at(v.clients, j, p));
        }
    }
    if v.clients.parked.contains_key(fingerprint) {
        if let Some(c) = m.get(h) {
            let addr = v.clients.parked[fingerprint];
            lemma_set_in_order(
                m,
                h,
                ClientView { state: StateView { active_addr: Some(addr), ..c.state }, ..c },
            );
        }
    }
}

/// A new client leaves the clients in order, also once it is configured.
proof fn lemma_add_in_order(v: ServiceView, config: ConfigView)
    requires
        in_order(v.clients),
        v.clients.room(1),
    ensures
        in_order(v.clients.add_client()),
        in_order(v.add_with_config(config).clients),
{
    let fresh = ClientView {
        config: crate::ipc::default_config(),
        state: crate::ipc::default_state(),
    };
    lemma_inserted_in_order(v.clients, fresh);
    v.clients.lemma_insert(fresh);
    let h = v.clients.next_handle();
    lemma_set_in_order(v.clients.add_client(), h, ClientView { config, ..fresh });
}

/// Whatever a frontend asks, no two active clients end up sharing an edge.
pub proof fn lemma_request_keeps_edges(v: ServiceView, r: FrontendRequest)
    requires
        in_order(v.clients),
        v.request_adds(r) ==> v.clients.room(1),
    ensures
        in_order(v.request(r).clients),
{
    reveal(ServiceView::save_config);
    match r {
        FrontendRequest::Activate(h, active) => {
            lemma_client_steps_in_order(v, h, Position::Left);
        },
        FrontendRequest::Create => {
            reveal(ServiceView::notify_created);
            lemma_add_in_order(v, crate::ipc::default_config());
        },
        FrontendRequest::CreateConfigured { config, active } => {
            reveal(ServiceView::add_configured_client);
            reveal(ServiceView::notify_created);
            lemma_add_in_order(v, config@);
            lemma_client_steps_in_order(
                v.add_with_config(config@),
                v.clients.next_handle(),
                Position::Left,
            );
        },
        FrontendRequest::Delete(h) => {
            reveal(ServiceView::remove_client);
            lemma_removed_in_order(v.clients, h);
        },
        FrontendRequest::SetOperationMode(mode) => {
            reveal(ServiceView::set_operation_mode);
            v.lemma_mode_frame(mode);
        },
        FrontendRequest::UpdateFixIps(h, ips) => {
            reveal(ServiceView::update_fix_ips);
            if let Some(c) = v.clients.get(h) {
                let d = ClientView { config: ConfigView { fix_ips: ips@, ..c.config }, ..c };
                lemma_set_in_order(v.clients, h, d);
                let e = ClientView {
                    state: StateView { ips: ips@.to_set() + c.state.dns_ips.to_set(), ..c.state },
                    ..d
                };
                lemma_set_in_order(v.clients.set(h, d), h, e);
            }
        },
        FrontendRequest::UpdateHostname(h, name) => {
            reveal(ServiceView::update_hostname);
            if let Some(c) = v.clients.get(h) {
                let name = crate::text::opt_view(name);
                lemma_set_in_order(
                    v.clients,
                    h,
                    ClientView {
                        config: ConfigView { hostname: name, ..c.config },
                        state: StateView {
                            active_addr: None,
                            dns_ips: seq![],
                            ips: c.config.fix_ips.to_set(),
                            ..c.state
                        },
                    },
                );
            }
        },
        FrontendRequest::UpdatePort(h, port) => {
            if let Some(c) = v.clients.get(h) {
                let d = v.clients.set_port(h, port).get(h)->0;
                lemma_set_in_order(v.clients, h, d);
            }
        },
        FrontendRequest::UpdatePosition(h, pos) => {
            lemma_client_steps_in_order(v, h, pos);
        },
        FrontendRequest::AssignPosition { fingerprint, pos } => {
            lemma_assign_in_order(v, fingerprint@, pos);
        },
        FrontendRequest::UpdateEnterHook(h, cmd) => {
            reveal(ServiceView::update_enter_hook);
            if let Some(c) = v.clients.get(h) {
                lemma_set_in_order(
                    v.clients,
                    h,
                    ClientView {
                        config: ConfigView { cmd: crate::text::opt_view(cmd), ..c.config },
                        ..c
                    },
                );
            }
        },
        FrontendRequest::SetServiceRunning(_) => {
            reveal(ServiceView::set_service_running);
            reveal(ServiceView::push_server_target);
        },
        FrontendRequest::SetServer { hostname, ips, port } => {
            reveal(ServiceView::set_server_endpoint);
            reveal(ServiceView::push_server_target);
        },
        FrontendRequest::Sync => {
            reveal(ServiceView::sync_frontend);
        },
        _ => {},
    }
}

/// Whatever input capture tells, no two active clients end up sharing an
/// edge, also where a device was paired.
pub proof fn lemma_capture_event_keeps_edges(v: ServiceView, e: ICaptureEvent)
    requires
        in_order(v.clients),
        v.event_adds(e) ==> v.clients.room(1),
    ensures
        in_order(v.capture_event(e).clients),
{
    reveal(ServiceView::save_config);
    if let ICaptureEvent::DeviceConnected { addr, fingerprint } = e {
        if let Some(pos) = v.clients.first_free_position() {
            if v.mode == OperationMode::Server {
                lemma_assign_in_order(v, fingerprint@, pos);
            }
        }
    }
}

/// Whatever input emulation and name resolution tell, no two active clients
/// end up sharing an edge.
pub proof fn lemma_other_events_keep_edges(v: ServiceView, e: EmulationEvent, d: DnsEvent)
    requires
        in_order(v.clients),
    ensures
        in_order(v.emulation_event(e).clients),
        in_order(v.resolver_event(d).clients),
{
    reveal(ServiceView::add_incoming);
    reveal(ServiceView::remove_incoming);
    reveal(ServiceView::update_incoming);
    reveal(ServiceView::push_server_target);
    match d {
        DnsEvent::Resolving(h) => {
            if let Some(c) = v.clients.get(h) {
                let n = ClientView { state: StateView { resolving: true, ..c.state }, ..c };
                lemma_set_in_order(v.clients, h, n);
            }
        },
        DnsEvent::Resolved(h, ips) => {
            if let Some(c) = v.clients.get(h) {
                let found = match ips {
                    Some(ips) => ips@,
                    None => seq![],
                };
                let n = ClientView {
                    state: StateView { resolving: false, dns_ips: found, ..c.state },
                    ..c
                };
                lemma_set_in_order(v.clients, h, n);
                let all = c.config.fix_ips.to_set() + found.to_set();
                lemma_set_in_order(
                    v.clients.set(h, n),
                    h,
                    ClientView { state: StateView { ips: all, ..n.state }, ..n },
                );
            }
        },
    }
}

/// None of the clients is active.
spec fn none_active(m: ManagerView) -> bool {
    forall|i: int, pos: Position| !#[trigger] active_at(m, i, pos)
}

/// Noting clients as inactive leaves just those active that are not among
/// them.
proof fn lemma_forget_active(v: ServiceView, handles: Seq<ClientHandle>)
    requires
        v.clients.wf(),
    ensures
        v.forget_active(handles).clients.wf(),
        forall|i: int, pos: Position| #[trigger]
            active_at(v.forget_active(handles).clients, i, pos) ==> active_at(v.clients, i, pos)
                && forall|k: int| 0 <= k < handles.len() ==> slot(#[trigger] handles[k]) != i,
    decreases handles.len(),
{
    if handles.len() > 0 {
        let init = handles.drop_last();
        lemma_forget_active(v, init);
        let m = v.forget_active(init).clients;
        m.lemma_set_active_wf(handles.last(), false);
        let n = v.forget_active(handles).clients;
        assert forall|i: int, pos: Position| #[trigger] active_at(n, i, pos) implies active_at(
            v.clients,
            i,
            pos,
        ) && forall|k: int| 0 <= k < handles.len() ==> slot(#[trigger] handles[k]) != i by {
            assert(active_at(m, i, pos));
            assert forall|k: int| 0 <= k < handles.len() implies slot(#[trigger] handles[k]) != i by {
                if k < init.len() {
                    assert(init[k] == handles[k]);
                }
            }
        }
    }
}

/// Every active client's handle is listed as active.
proof fn lemma_active_handles(m: ManagerView, i: int, pos: Position)
    requires
        m.wf(),
        active_at(m, i, pos),
    ensures
        exists|k: int|
            0 <= k < m.active_handles().len() && slot(#[trigger] m.active_handles()[k]) == i,
{
    crate::client::lemma_used_keys(m.slots);
    let keys = crate::client::used_keys(m.slots);
    assert(m.slots[i] is Some);
    let k = choose|k: int| 0 <= k < keys.len() && keys[k] == i as usize;
    let hs = m.handles();
    assert(hs[k] == i as u64);
    let p = |h: ClientHandle| m.slots[h as int]->0.state.active;
    assert(hs.contains(i as u64));
    assert(p(i as u64));
    hs.lemma_filter_contains(p, k);
    let f = m.active_handles();
    assert(f == hs.filter(p));
    let n = choose|n: int| 0 <= n < f.len() && f[n] == i as u64;
    assert(slot(f[n]) == i);
}

/// Clients that are made active one after the other stay in order.
proof fn lemma_activate_clients_in_order(v: ServiceView, handles: Seq<ClientHandle>)
    requires
        in_order(v.clients),
    ensures
        in_order(v.activate_clients(handles).clients),
    decreases handles.len(),
{
    if handles.len() > 0 {
        lemma_activate_clients_in_order(v, handles.drop_last());
        lemma_client_steps_in_order(
            v.activate_clients(handles.drop_last()),
            handles.last(),
            Position::Left,
        );
    }
}

/// Once the service has started, no two active clients share an edge,
/// whatever the configuration file says.
pub proof fn lemma_startup_clears_edges(v: ServiceView)
    requires
        v.clients.wf(),
    ensures
        in_order(v.startup().clients),
{
    let active = v.clients.active_handles();
    lemma_forget_active(v, active);
    let off = v.forget_active(active);
    assert(none_active(off.clients)) by {
        assert forall|i: int, pos: Position| !#[trigger] active_at(off.clients, i, pos) by {
            if active_at(off.clients, i, pos) {
                lemma_active_handles(v.clients, i, pos);
            }
        }
    }
    lemma_activate_clients_in_order(off, active);
}

/// Clients of the configuration file that are added leave the clients in
/// order, whatever the file says.
proof fn lemma_load_clients_in_order(v: ServiceView, clients: Seq<ConfigClientView>)
    requires
        in_order(v.clients),
        v.clients.room(clients.len()),
    ensures
        in_order(v.load_clients(clients).clients),
    decreases clients.len(),
{
    if clients.len() > 0 {
        let init = clients.drop_last();
        lemma_load_clients_in_order(v, init);
        v.lemma_load_clients_frame(init);
        let u = v.load_clients(init);
        let c = configured_client(clients.last());
        let h = u.clients.next_handle();
        let off = ClientView { state: StateView { active: false, ..c.state }, ..c };
        u.clients.lemma_insert(c);
        u.clients.lemma_insert(off);
        lemma_inserted_in_order(u.clients, off);
        assert(u.clients.insert(c).set_active(h, false).slots =~= u.clients.insert(off).slots);
        if clients.last().active {
            lemma_client_steps_in_order(
                u.with_clients(u.clients.insert(off)),
                h,
                Position::Left,
            );
        } else {
            assert(u.clients.insert(c) == u.clients.insert(off));
        }
    }
}

/// Removing clients leaves just those that are not among them.
proof fn lemma_remove_clients(v: ServiceView, handles: Seq<ClientHandle>)
    requires
        v.clients.wf(),
    ensures
        v.remove_clients(handles).clients.wf(),
        forall|i: int, pos: Position| #[trigger]
            active_at(v.remove_clients(handles).clients, i, pos) ==> active_at(v.clients, i, pos)
                && forall|k: int| 0 <= k < handles.len() ==> slot(#[trigger] handles[k]) != i,
    decreases handles.len(),
{
    if handles.len() > 0 {
        reveal(ServiceView::remove_client);
        let init = handles.drop_last();
        lemma_remove_clients(v, init);
        let m = v.remove_clients(init).clients;
        m.lemma_remove(handles.last());
        let n = v.remove_clients(handles).clients;
        assert forall|i: int, pos: Position| #[trigger] active_at(n, i, pos) implies active_at(
            v.clients,
            i,
            pos,
        ) && forall|k: int| 0 <= k < handles.len() ==> slot(#[trigger] handles[k]) != i by {
            assert(active_at(m, i, pos));
            assert forall|k: int| 0 <= k < handles.len() implies slot(#[trigger] handles[k]) != i by {
                if k < init.len() {
                    assert(init[k] == handles[k]);
                }
            }
        }
    }
}

/// Once a changed configuration file was taken over, no two active clients
/// share an edge, whatever the file says.
pub proof fn lemma_config_change_clears_edges(v: ServiceView, new: SavedView, bind: Seq<u32>)
    requires
        v.clients.wf(),
        new.clients.len() <= crate::client::MAX_CLIENTS,
    ensures
        in_order(v.config_change(new, bind).clients),
{
    let read = v.read(new);
    read.lemma_mode_frame(new.role());
    let switched = if new.role() != v.mode {
        read.apply_operation_mode(new.role()).notify(FrontendEventView::OperationMode(new.role()))
    } else {
        read
    };
    let handles = switched.clients.handles();
    lemma_remove_clients(switched, handles);
    switched.lemma_remove_clients_frame(handles);
    switched.lemma_remove_all_clients();
    let cleared = switched.remove_clients(handles);
    assert(none_active(cleared.clients)) by {
        assert forall|i: int, pos: Position| !#[trigger] active_at(cleared.clients, i, pos) by {
            if active_at(cleared.clients, i, pos) {
                assert(active_at(switched.clients, i, pos));
                crate::client::lemma_used_keys(switched.clients.slots);
                let keys = crate::client::used_keys(switched.clients.slots);
                assert(switched.clients.slots[i] is Some);
                let k = choose|k: int| 0 <= k < keys.len() && keys[k] == i as usize;
                assert(slot(handles[k]) == i);
            }
        }
    }
    lemma_load_clients_in_order(cleared, new.clients);
    reveal(ServiceView::push_server_target);
    reveal(ServiceView::sync_frontend);
}

/// The devices that entered are told apart: by address and by barrier, and
/// their barriers by handles that no client has. A server has none.
pub open spec fn incoming_in_order(v: ServiceView) -> bool {
    &&& v.mode == OperationMode::Server ==> v.incoming.len() == 0
    &&& forall|i: int|
        0 <= i < v.incoming.len() ==> ENTER_HANDLE_BEGIN <= (#[trigger] v.incoming[i]).handle
            < ENTER_HANDLE_BEGIN + v.next_trigger
    &&& forall|i: int, j: int|
        0 <= i < j < v.incoming.len() ==> (#[trigger] v.incoming[i]).addr != (
        #[trigger] v.incoming[j]).addr && v.incoming[i].handle != v.incoming[j].handle
}

/// A device that is gone leaves the others told apart.
proof fn lemma_remove_incoming_in_order(v: ServiceView, addr: SocketAddr)
    requires
        incoming_in_order(v),
    ensures
        incoming_in_order(v.remove_incoming(addr)),
        incoming_index(v.remove_incoming(addr).incoming, addr) is None,
        v.remove_incoming(addr).next_trigger == v.next_trigger,
        v.remove_incoming(addr).mode == v.mode,
{
    reveal(ServiceView::remove_incoming);
    lemma_incoming_index(v.incoming, addr);
    let w = v.remove_incoming(addr);
    lemma_incoming_index(w.incoming, addr);
    if let Some(i) = incoming_index(v.incoming, addr) {
        assert(w.incoming == v.incoming.remove(i));
        assert forall|k: int| 0 <= k < w.incoming.len() implies (#[trigger] w.incoming[k]).addr
            != addr && ENTER_HANDLE_BEGIN <= w.incoming[k].handle < ENTER_HANDLE_BEGIN
            + v.next_trigger by {
            let m = if k < i { k } else { k + 1 };
            assert(w.incoming[k] == v.incoming[m]);
        }
        assert forall|a: int, b: int| 0 <= a < b < w.incoming.len() implies (
        #[trigger] w.incoming[a]).addr != (#[trigger] w.incoming[b]).addr && w.incoming[a].handle
            != w.incoming[b].handle by {
            let m = if a < i { a } else { a + 1 };
            let n = if b < i { b } else { b + 1 };
            assert(w.incoming[a] == v.incoming[m] && w.incoming[b] == v.incoming[n]);
        }
    }
}

/// A device that enters is told apart from the others.
proof fn lemma_add_incoming_in_order(
    v: ServiceView,
    addr: SocketAddr,
    pos: Position,
    fingerprint: Seq<char>,
)
    requires
        incoming_in_order(v),
        incoming_index(v.incoming, addr) is None,
        v.mode == OperationMode::Client ==> v.next_trigger < ENTER_HANDLE_BEGIN,
    ensures
        incoming_in_order(v.add_incoming(addr, pos, fingerprint)),
{
    reveal(ServiceView::add_incoming);
    lemma_incoming_index(v.incoming, addr);
    let w = v.add_incoming(addr, pos, fingerprint);
    if v.mode == OperationMode::Client {
        let n = v.incoming.len() as int;
        assert forall|i: int| 0 <= i < w.incoming.len() implies ENTER_HANDLE_BEGIN <= (
        #[trigger] w.incoming[i]).handle < ENTER_HANDLE_BEGIN + w.next_trigger by {
            if i < n {
                assert(w.incoming[i] == v.incoming[i]);
            }
        }
        assert forall|i: int, j: int| 0 <= i < j < w.incoming.len() implies (
        #[trigger] w.incoming[i]).addr != (#[trigger] w.incoming[j]).addr && w.incoming[i].handle
            != w.incoming[j].handle by {
            assert(w.incoming[i] == v.incoming[i]);
            if j < n {
                assert(w.incoming[j] == v.incoming[j]);
            }
        }
    }
}

/// Whatever input emulation tells, the devices that entered stay told apart.
pub proof fn lemma_emulation_event_keeps_incoming(v: ServiceView, e: EmulationEvent)
    requires
        incoming_in_order(v),
        v.event_enters(e) ==> v.next_trigger < ENTER_HANDLE_BEGIN,
    ensures
        incoming_in_order(v.emulation_event(e)),
{
    match e {
        EmulationEvent::Entered { addr, pos, fingerprint } => {
            match incoming_index(v.incoming, addr) {
                None => {
                    lemma_add_incoming_in_order(v, addr, pos, fingerprint@);
                },
                Some(i) => {
                    reveal(ServiceView::update_incoming);
                    if v.mode == OperationMode::Client && v.moves(i, pos, fingerprint@) {
                        reveal(ServiceView::remove_incoming);
                        lemma_remove_incoming_in_order(v, addr);
                        lemma_add_incoming_in_order(
                            v.remove_incoming(addr),
                            addr,
                            pos,
                            fingerprint@,
                        );
                    }
                },
            }
        },
        EmulationEvent::Disconnected { addr } => {
            lemma_remove_incoming_in_order(v, addr);
        },
        _ => {
            reveal(ServiceView::push_server_target);
        },
    }
}

/// Dropping the first devices leaves the rest as they were.
proof fn lemma_drop_incoming(v: ServiceView, n: int)
    requires
        0 <= n <= v.incoming.len(),
        forall|i: int, j: int|
            0 <= i < j < v.incoming.len() ==> (#[trigger] v.incoming[i]).addr != (
            #[trigger] v.incoming[j]).addr,
    ensures
        v.drop_incoming(v.incoming.map_values(|i: IncomingView| i.addr).take(n)).incoming
            == v.incoming.skip(n),
    decreases n,
{
    let addrs = v.incoming.map_values(|i: IncomingView| i.addr);
    if n == 0 {
        assert(addrs.take(0) =~= seq![]);
        assert(v.incoming.skip(0) =~= v.incoming);
    } else {
        lemma_drop_incoming(v, n - 1);
        assert(addrs.take(n).drop_last() =~= addrs.take(n - 1));
        let u = v.drop_incoming(addrs.take(n - 1));
        let addr = addrs[n - 1];
        reveal(ServiceView::remove_incoming);
        lemma_incoming_index(u.incoming, addr);
        assert(u.incoming[0] == v.incoming[n - 1]);
        assert(incoming_index(u.incoming, addr) == Some(0int));
        assert(u.incoming.remove(0) =~= v.incoming.skip(n));
    }
}

/// Whatever role is taken on, the devices that entered stay told apart, and
/// a server lets all of them go.
pub proof fn lemma_mode_keeps_incoming(v: ServiceView, mode: OperationMode)
    requires
        incoming_in_order(v),
    ensures
        incoming_in_order(v.apply_operation_mode(mode)),
        mode == OperationMode::Server ==> v.apply_operation_mode(mode).incoming.len() == 0,
{
    reveal(ServiceView::apply_operation_mode);
    let w = ServiceView { mode, ..v };
    let addrs = w.incoming.map_values(|i: IncomingView| i.addr);
    lemma_drop_incoming(w, w.incoming.len() as int);
    assert(addrs.take(w.incoming.len() as int) =~= addrs);
    w.lemma_drop_incoming_keeps(addrs);
    let x = w.drop_incoming(addrs).emit(ActionView::SetServer(None)).emit(
        ActionView::EmulationSetEnabled(false),
    ).emit(ActionView::StartListening { port: w.port, audio: w.audio });
    x.lemma_create_captures_frame(w.clients.active_handles());
    w.emit(ActionView::StopListening).lemma_destroy_captures_frame(w.clients.active_handles());
}

/// A device that entered has a barrier whose handle no client's can be: those
/// are below the handles of barriers.
pub proof fn lemma_barriers_are_no_clients(v: ServiceView, i: int, h: ClientHandle)
    requires
        incoming_in_order(v),
        0 <= i < v.incoming.len(),
        h < v.clients.slots.len(),
        v.clients.slots.len() <= crate::client::MAX_CLIENTS,
    ensures
        v.incoming[i].handle != h,
{
}

/// An action fits the role that the service is in once it was emitted by a
/// handler that began in state `s`: barriers of clients go up on a server
/// only, enter-only barriers and emulation on a client only, capture starts
/// where there is something to capture, only a server listens, and a server
/// is dialed only by a client whose emulation is on, at all addresses that
/// are known and in ascending order.
pub open spec fn fits(s: ServiceView, w: ServiceView, a: ActionView) -> bool {
    match a {
        ActionView::CaptureCreate(_, _, CaptureType::Default) => w.mode == OperationMode::Server,
        ActionView::CaptureCreate(_, _, CaptureType::EnterOnly) => w.mode == OperationMode::Client,
        ActionView::CaptureSetEnabled(on) => on ==> w.mode == OperationMode::Client,
        ActionView::CaptureReenable => s.mode == OperationMode::Server || s.incoming.len() > 0,
        ActionView::EmulationReenable => w.mode == OperationMode::Client,
        ActionView::EmulationSetEnabled(on) => !on,
        ActionView::StartListening { port, audio } => w.mode == OperationMode::Server,
        ActionView::SetServer(Some(t)) => {
            &&& w.mode == OperationMode::Client
            &&& w.emulation_status == Status::Enabled
            &&& t.port == w.endpoint.port
            &&& t.ips.len() > 0
            &&& crate::net::ascending(t.ips)
            &&& t.ips.to_set() == (w.endpoint.ips + w.server_dns_ips).to_set()
        },
        _ => true,
    }
}

/// Between two states actions were added, and all of them fit.
pub open spec fn added_fit(s: ServiceView, v: ServiceView, w: ServiceView) -> bool {
    &&& v.actions.is_prefix_of(w.actions)
    &&& forall|i: int|
        v.actions.len() <= i < w.actions.len() ==> fits(s, w, #[trigger] w.actions[i])
}

/// The two states agree on what decides whether an action fits.
spec fn same_role(v: ServiceView, w: ServiceView) -> bool {
    &&& v.mode == w.mode
    &&& v.emulation_status == w.emulation_status
    &&& v.endpoint == w.endpoint
    &&& v.server_dns_ips == w.server_dns_ips
}

/// A step that adds fitting actions and keeps the role.
spec fn step_fits(s: ServiceView, v: ServiceView, w: ServiceView) -> bool {
    added_fit(s, v, w) && same_role(v, w)
}

/// Steps that add fitting actions add up.
proof fn lemma_steps_fit(s: ServiceView, u: ServiceView, v: ServiceView, w: ServiceView)
    requires
        added_fit(s, u, v),
        step_fits(s, v, w),
    ensures
        added_fit(s, u, w),
        same_role(u, v) ==> step_fits(s, u, w),
{
    assert forall|i: int| u.actions.len() <= i < w.actions.len() implies fits(
        s,
        w,
        #[trigger] w.actions[i],
    ) by {
        if i < v.actions.len() {
            assert(w.actions[i] == v.actions[i]);
            assert(fits(s, v, v.actions[i]));
        }
    }
}

/// Emitting an action that fits.
proof fn lemma_emit_fits(s: ServiceView, v: ServiceView, a: ActionView)
    requires
        fits(s, v, a),
    ensures
        step_fits(s, v, v.emit(a)),
{
}

/// Doing nothing but changing what does not matter here.
proof fn lemma_idle_fits(s: ServiceView, v: ServiceView, w: ServiceView)
    requires
        v.actions == w.actions,
    ensures
        added_fit(s, v, w),
{
}

/// Announcements and requests for addresses always fit.
proof fn lemma_plain_steps_fit(s: ServiceView, v: ServiceView, h: ClientHandle)
    ensures
        step_fits(s, v, v.save_config()),
        step_fits(s, v, v.notify_audio_status()),
        step_fits(s, v, v.broadcast_client(h)),
        step_fits(s, v, v.resolve(h)),
        step_fits(s, v, v.resolve_server()),
        step_fits(s, v, v.notify_endpoint()),
        step_fits(s, v, v.notify_created(h)),
        step_fits(s, v, v.enumerate()),
{
    reveal(ServiceView::save_config);
    reveal(ServiceView::notify_created);
}

/// Dialing fits.
proof fn lemma_dial_fits(s: ServiceView, v: ServiceView)
    ensures
        step_fits(s, v, v.push_server_target()),
{
    reveal(ServiceView::push_server_target);
    crate::net::lemma_sorted_ips(v.endpoint.ips + v.server_dns_ips);
}

/// Making a client inactive fits.
proof fn lemma_deactivate_fits(s: ServiceView, v: ServiceView, h: ClientHandle)
    ensures
        step_fits(s, v, v.deactivate_client(h)),
{
    reveal(ServiceView::deactivate_client);
    if let Some(c) = v.clients.get(h) {
        if c.state.active {
            let off = v.with_clients(v.clients.set_active(h, false));
            let down = off.emit(ActionView::CaptureDestroy(h));
            lemma_plain_steps_fit(s, down, h);
            lemma_steps_fit(s, v, down, down.broadcast_client(h));
        }
    }
}

/// Making a client active fits.
proof fn lemma_activate_fits(s: ServiceView, v: ServiceView, h: ClientHandle)
    ensures
        step_fits(s, v, v.activate_client(h)),
{
    reveal(ServiceView::activate_client);
    if let Some(c) = v.clients.get(h) {
        let r = v.resolve(h);
        lemma_plain_steps_fit(s, v, h);
        if let Some(other) = r.clients.first(QueryView::ActiveAt(c.config.pos)) {
            lemma_deactivate_fits(s, r, other);
        }
        let cleared = r.clear_edge(h, c.config.pos);
        lemma_steps_fit(s, v, r, cleared);
        if let Some(d) = cleared.clients.get(h) {
            if !d.state.active {
                let on = cleared.with_clients(cleared.clients.set_active(h, true));
                lemma_steps_fit(s, v, cleared, on);
                let up = if v.mode == OperationMode::Server {
                    on.emit(ActionView::CaptureCreate(h, c.config.pos, CaptureType::Default))
                } else {
                    on
                };
                lemma_steps_fit(s, v, on, up);
                lemma_plain_steps_fit(s, up, h);
                lemma_steps_fit(s, v, up, up.broadcast_client(h));
            }
        }
    }
}

/// Moving a client fits.
proof fn lemma_move_fits(s: ServiceView, v: ServiceView, h: ClientHandle, pos: Position)
    ensures
        step_fits(s, v, v.update_pos(h, pos)),
{
    reveal(ServiceView::update_pos);
    let moved = v.with_clients(v.clients.set_pos(h, pos));
    let off = moved.deactivate_client(h);
    let on = off.activate_client(h);
    lemma_deactivate_fits(s, moved, h);
    lemma_steps_fit(s, v, moved, off);
    lemma_activate_fits(s, off, h);
    lemma_steps_fit(s, v, off, on);
    lemma_plain_steps_fit(s, on, h);
    lemma_steps_fit(s, v, on, on.broadcast_client(h));
    lemma_plain_steps_fit(s, moved, h);
    lemma_steps_fit(s, v, moved, moved.broadcast_client(h));
}

/// Making a client active and announcing it fits.
proof fn lemma_activate_announced_fits(s: ServiceView, v: ServiceView, h: ClientHandle)
    ensures
        step_fits(s, v, v.activate_client(h).broadcast_client(h)),
        step_fits(s, v, v.activate_client(h).notify_created(h)),
{
    let on = v.activate_client(h);
    lemma_activate_fits(s, v, h);
    lemma_plain_steps_fit(s, on, h);
    lemma_steps_fit(s, v, on, on.broadcast_client(h));
    lemma_steps_fit(s, v, on, on.notify_created(h));
}

/// Pairing a device fits.
proof fn lemma_assign_fits(s: ServiceView, v: ServiceView, fingerprint: Seq<char>, pos: Position)
    ensures
        step_fits(s, v, v.assign_position(fingerprint, pos)),
{
    reveal(ServiceView::assign_position);
    reveal(ServiceView::adopt_parked);
    match v.clients.first(QueryView::Fingerprint(fingerprint)) {
        Some(h) => {
            let moved = v.update_pos(h, pos);
            lemma_move_fits(s, v, h, pos);
            let bound = moved.adopt_parked(h, fingerprint);
            lemma_steps_fit(s, v, moved, bound);
            lemma_activate_announced_fits(s, bound, h);
            lemma_steps_fit(s, v, bound, bound.activate_client(h).broadcast_client(h));
        },
        None => {
            let h = v.clients.next_handle();
            let added = v.add_with_config(ServiceView::paired_config(fingerprint, pos));
            let told = added.notify_created(h);
            lemma_plain_steps_fit(s, added, h);
            lemma_steps_fit(s, v, added, told);
            let bound = told.adopt_parked(h, fingerprint);
            lemma_steps_fit(s, v, told, bound);
            lemma_activate_announced_fits(s, bound, h);
            lemma_steps_fit(s, v, bound, bound.activate_client(h).broadcast_client(h));
        },
    }
}

/// Telling the frontends everything fits.
proof fn lemma_sync_fits(s: ServiceView, v: ServiceView)
    ensures
        step_fits(s, v, v.sync_frontend()),
{
    reveal(ServiceView::sync_frontend);
    let a = v.enumerate();
    let b = a.notify(FrontendEventView::OperationMode(v.mode));
    let c = b.notify(FrontendEventView::EmulationStatus(v.emulation_status));
    let d = c.notify(FrontendEventView::CaptureStatus(v.capture_status));
    let e = d.notify(FrontendEventView::PortChanged(v.port, None));
    let f = e.notify(FrontendEventView::PublicKeyFingerprint(v.fingerprint));
    let g = f.notify(FrontendEventView::AuthorizedUpdated(v.keys));
    let h = g.notify_endpoint();
    lemma_steps_fit(s, v, a, b);
    lemma_steps_fit(s, v, b, c);
    lemma_steps_fit(s, v, c, d);
    lemma_steps_fit(s, v, d, e);
    lemma_steps_fit(s, v, e, f);
    lemma_steps_fit(s, v, f, g);
    lemma_steps_fit(s, v, g, h);
    lemma_steps_fit(s, v, h, h.notify_audio_status());
}

/// A device that is gone fits.
proof fn lemma_remove_incoming_fits(s: ServiceView, v: ServiceView, addr: SocketAddr)
    ensures
        step_fits(s, v, v.remove_incoming(addr)),
{
    reveal(ServiceView::remove_incoming);
    if let Some(i) = incoming_index(v.incoming, addr) {
        let down = v.emit(ActionView::CaptureDestroy(v.incoming[i].handle));
        let removed = ServiceView { incoming: v.incoming.remove(i), ..down };
        lemma_steps_fit(s, v, down, removed);
        if v.mode == OperationMode::Client && removed.incoming.len() == 0 {
            lemma_emit_fits(s, removed, ActionView::CaptureSetEnabled(false));
            lemma_steps_fit(s, v, removed, removed.emit(ActionView::CaptureSetEnabled(false)));
        }
    }
}

/// A device that enters fits.
proof fn lemma_add_incoming_fits(
    s: ServiceView,
    v: ServiceView,
    addr: SocketAddr,
    pos: Position,
    fingerprint: Seq<char>,
)
    ensures
        step_fits(s, v, v.add_incoming(addr, pos, fingerprint)),
{
    reveal(ServiceView::add_incoming);
    if v.mode == OperationMode::Client {
        let handle = (ENTER_HANDLE_BEGIN + v.next_trigger) as u64;
        let on = v.emit(ActionView::CaptureSetEnabled(true));
        let up = on.emit(ActionView::CaptureCreate(handle, pos, CaptureType::EnterOnly));
        lemma_steps_fit(s, v, on, up);
        lemma_steps_fit(s, v, up, v.add_incoming(addr, pos, fingerprint));
    }
}

/// Devices that are gone fit.
proof fn lemma_drop_incoming_fits(s: ServiceView, v: ServiceView, addrs: Seq<SocketAddr>)
    ensures
        step_fits(s, v, v.drop_incoming(addrs)),
    decreases addrs.len(),
{
    if addrs.len() > 0 {
        let u = v.drop_incoming(addrs.drop_last());
        lemma_drop_incoming_fits(s, v, addrs.drop_last());
        let r = u.remove_incoming(addrs.last());
        lemma_remove_incoming_fits(s, u, addrs.last());
        lemma_steps_fit(s, v, u, r);
        let e = ActionView::Notify(FrontendEventView::IncomingDisconnected(addrs.last()));
        lemma_emit_fits(s, r, e);
        lemma_steps_fit(s, v, r, r.emit(e));
    }
}

/// Barriers that go up on a server fit.
proof fn lemma_create_captures_fits(s: ServiceView, v: ServiceView, handles: Seq<ClientHandle>)
    requires
        v.mode == OperationMode::Server,
    ensures
        step_fits(s, v, v.create_captures(handles)),
    decreases handles.len(),
{
    if handles.len() > 0 {
        let u = v.create_captures(handles.drop_last());
        lemma_create_captures_fits(s, v, handles.drop_last());
        lemma_steps_fit(s, v, u, v.create_captures(handles));
    }
}

/// Barriers that come down fit.
proof fn lemma_destroy_captures_fits(s: ServiceView, v: ServiceView, handles: Seq<ClientHandle>)
    ensures
        step_fits(s, v, v.destroy_captures(handles)),
    decreases handles.len(),
{
    if handles.len() > 0 {
        let u = v.destroy_captures(handles.drop_last());
        lemma_destroy_captures_fits(s, v, handles.drop_last());
        lemma_steps_fit(s, v, u, v.destroy_captures(handles));
    }
}

/// The action starts a pipeline: capture, emulation or a dial.
pub open spec fn is_start(a: ActionView) -> bool {
    match a {
        ActionView::CaptureReenable => true,
        ActionView::CaptureSetEnabled(on) => on,
        ActionView::EmulationReenable => true,
        ActionView::EmulationSetEnabled(on) => on,
        ActionView::SetServer(Some(_)) => true,
        _ => false,
    }
}

/// Changing the role emits nothing that does not fit the new role.
pub proof fn lemma_mode_change_fits(s: ServiceView, v: ServiceView, mode: OperationMode)
    ensures
        added_fit(s, v, v.apply_operation_mode(mode)),
{
    reveal(ServiceView::apply_operation_mode);
    let w = ServiceView { mode, ..v };
    lemma_idle_fits(s, v, w);
    match mode {
        OperationMode::Unconfigured => {
            let a = w.emit(ActionView::StopListening);
            let b = a.emit(ActionView::SetServer(None));
            let c = b.emit(ActionView::CaptureSetEnabled(false));
            let d = c.emit(ActionView::EmulationSetEnabled(false));
            lemma_steps_fit(s, v, w, a);
            lemma_steps_fit(s, v, a, b);
            lemma_steps_fit(s, v, b, c);
            lemma_steps_fit(s, v, c, d);
        },
        OperationMode::Server => {
            let addrs = w.incoming.map_values(|i: IncomingView| i.addr);
            let a = w.drop_incoming(addrs);
            lemma_drop_incoming_fits(s, w, addrs);
            lemma_steps_fit(s, v, w, a);
            let b = a.emit(ActionView::SetServer(None));
            let c = b.emit(ActionView::EmulationSetEnabled(false));
            let d = c.emit(ActionView::StartListening { port: w.port, audio: w.audio });
            lemma_steps_fit(s, v, a, b);
            lemma_steps_fit(s, v, b, c);
            lemma_steps_fit(s, v, c, d);
            lemma_create_captures_fits(s, d, w.clients.active_handles());
            lemma_steps_fit(s, v, d, d.create_captures(w.clients.active_handles()));
        },
        OperationMode::Client => {
            let a = w.emit(ActionView::StopListening);
            let b = a.destroy_captures(w.clients.active_handles());
            let c = b.emit(ActionView::CaptureSetEnabled(false));
            lemma_steps_fit(s, v, w, a);
            lemma_destroy_captures_fits(s, a, w.clients.active_handles());
            lemma_steps_fit(s, v, a, b);
            lemma_steps_fit(s, v, b, c);
            lemma_plain_steps_fit(s, c, 0);
            lemma_steps_fit(s, v, c, c.resolve_server());
        },
    }
}

/// Whatever a frontend asks, every action fits the role it leaves the service
/// in.
pub proof fn lemma_request_actions_fit(v: ServiceView, r: FrontendRequest)
    ensures
        added_fit(v, v, v.request(r)),
{
    match r {
        FrontendRequest::Activate(h, active) => {
            let w = if active {
                v.activate_client(h)
            } else {
                v.deactivate_client(h)
            };
            lemma_activate_fits(v, v, h);
            lemma_deactivate_fits(v, v, h);
            lemma_saved_fits(v, v, w);
        },
        FrontendRequest::AuthorizeKey(desc, fp) => {
            lemma_saved_fits(v, v, v.set_keys(v.keys.insert(fp@, desc@)));
        },
        FrontendRequest::RemoveAuthorizedKey(fp) => {
            lemma_saved_fits(v, v, v.set_keys(v.keys.remove(fp@)));
        },
        FrontendRequest::Create => {
            let h = v.clients.next_handle();
            let added = v.with_clients(v.clients.add_client());
            lemma_plain_steps_fit(v, added, h);
            lemma_steps_fit(v, v, added, added.notify_created(h));
            lemma_saved_fits(v, v, v.add_client());
        },
        FrontendRequest::CreateConfigured { config, active } => {
            reveal(ServiceView::add_configured_client);
            let h = v.clients.next_handle();
            let added = v.add_with_config(config@);
            lemma_plain_steps_fit(v, added, h);
            lemma_activate_announced_fits(v, added, h);
            lemma_steps_fit(v, v, added, added.notify_created(h));
            lemma_steps_fit(v, v, added, added.activate_client(h).notify_created(h));
            lemma_saved_fits(v, v, v.add_configured_client(config@, active));
        },
        FrontendRequest::Delete(h) => {
            reveal(ServiceView::remove_client);
            lemma_remove_client_fits(v, v, h);
            lemma_saved_fits(v, v, v.remove_client(h));
        },
        FrontendRequest::SetServiceRunning(running) => {
            reveal(ServiceView::set_service_running);
            lemma_running_fits(v, running);
        },
        FrontendRequest::SetOperationMode(mode) => {
            reveal(ServiceView::set_operation_mode);
            lemma_mode_change_fits(v, v, mode);
            let m = v.apply_operation_mode(mode);
            let w = ServiceView { configured: Some(mode), ..m };
            lemma_steps_fit(v, v, m, w);
            lemma_saved_fits(v, v, w);
            let t = w.save_config();
            let e = ActionView::Notify(FrontendEventView::OperationMode(mode));
            lemma_emit_fits(v, t, e);
            lemma_steps_fit(v, v, t, t.emit(e));
        },
        FrontendRequest::UpdateFixIps(h, ips) => {
            reveal(ServiceView::update_fix_ips);
            lemma_saved_fits(v, v, v.update_fix_ips(h, ips@));
        },
        FrontendRequest::UpdateHostname(h, name) => {
            reveal(ServiceView::update_hostname);
            let named = v.with_clients(v.clients.set_hostname(h, crate::text::opt_view(name)));
            lemma_plain_steps_fit(v, named, h);
            let r = named.resolve(h);
            lemma_steps_fit(v, v, named, r);
            lemma_steps_fit(v, v, r, r.broadcast_client(h));
            lemma_steps_fit(v, v, named, named.broadcast_client(h));
            lemma_saved_fits(v, v, v.update_hostname(h, crate::text::opt_view(name)));
        },
        FrontendRequest::UpdatePort(h, port) => {
            let w = v.with_clients(v.clients.set_port(h, port)).broadcast_client(h);
            lemma_saved_fits(v, v, w);
        },
        FrontendRequest::UpdatePosition(h, pos) => {
            lemma_move_fits(v, v, h, pos);
            lemma_saved_fits(v, v, v.update_pos(h, pos));
        },
        FrontendRequest::AssignPosition { fingerprint, pos } => {
            lemma_assign_fits(v, v, fingerprint@, pos);
            lemma_saved_fits(v, v, v.assign_position(fingerprint@, pos));
        },
        FrontendRequest::SetServer { hostname, ips, port } => {
            reveal(ServiceView::set_server_endpoint);
            let endpoint = EndpointView {
                hostname: crate::text::opt_view(hostname),
                ips: ips@,
                port,
            };
            let a = ServiceView { endpoint, server_dns_ips: seq![], ..v };
            lemma_idle_fits(v, v, a);
            lemma_plain_steps_fit(v, a, 0);
            let b = a.resolve_server();
            lemma_steps_fit(v, v, a, b);
            lemma_dial_fits(v, b);
            let c = b.push_server_target();
            lemma_steps_fit(v, v, b, c);
            lemma_steps_fit(v, v, c, c.notify_endpoint());
            lemma_saved_fits(v, v, c.notify_endpoint());
        },
        FrontendRequest::Sync => {
            lemma_sync_fits(v, v);
        },
        FrontendRequest::UpdateEnterHook(h, cmd) => {
            reveal(ServiceView::update_enter_hook);
        },
        FrontendRequest::SaveConfiguration => {
            lemma_saved_fits(v, v, v);
        },
        FrontendRequest::SetAudioSend(send) => {
            lemma_audio_fits(v, crate::audio::AudioSettingsView { send, ..v.audio });
        },
        FrontendRequest::SetAudioReceive(receive) => {
            lemma_audio_fits(v, crate::audio::AudioSettingsView { receive, ..v.audio });
        },
        FrontendRequest::UpdateAudioSettings { bitrate, buffer_ms } => {
            lemma_audio_fits(v, crate::audio::AudioSettingsView { bitrate, buffer_ms, ..v.audio });
        },
        FrontendRequest::SetAudioCaptureDevice(d) => {
            let capture_device = crate::text::opt_view(d);
            lemma_audio_fits(v, crate::audio::AudioSettingsView { capture_device, ..v.audio });
        },
        FrontendRequest::SetAudioPlaybackDevice(d) => {
            let playback_device = crate::text::opt_view(d);
            lemma_audio_fits(v, crate::audio::AudioSettingsView { playback_device, ..v.audio });
        },
        _ => {},
    }
}

/// Keeping the configuration after a step that fits.
proof fn lemma_saved_fits(s: ServiceView, v: ServiceView, w: ServiceView)
    requires
        added_fit(s, v, w),
    ensures
        added_fit(s, v, w.save_config()),
{
    lemma_plain_steps_fit(s, w, 0);
    lemma_steps_fit(s, v, w, w.save_config());
}

/// Changing the audio settings fits.
proof fn lemma_audio_fits(v: ServiceView, audio: crate::audio::AudioSettingsView)
    ensures
        added_fit(v, v, v.set_audio(audio)),
{
    let a = ServiceView { audio, ..v };
    lemma_saved_fits(v, v, a);
    let b = a.save_config();
    lemma_plain_steps_fit(v, b, 0);
    lemma_steps_fit(v, v, b, b.notify_audio_status());
}

/// Removing a client fits.
proof fn lemma_remove_client_fits(s: ServiceView, v: ServiceView, h: ClientHandle)
    ensures
        step_fits(s, v, v.remove_client(h)),
{
    reveal(ServiceView::remove_client);
    let removed = v.with_clients(v.clients.remove(h));
    let down = removed.emit(ActionView::CaptureDestroy(h));
    let e = ActionView::Notify(FrontendEventView::Deleted(h));
    lemma_steps_fit(s, v, removed, down);
    lemma_emit_fits(s, down, e);
    lemma_steps_fit(s, v, down, down.emit(e));
}

/// Starting and stopping fits.
proof fn lemma_running_fits(v: ServiceView, running: bool)
    ensures
        added_fit(v, v, v.set_service_running(running)),
{
    reveal(ServiceView::set_service_running);
    if v.mode == OperationMode::Client {
        if running {
            let a = v.emit(ActionView::EmulationReenable);
            lemma_dial_fits(v, a);
            let b = a.push_server_target();
            lemma_steps_fit(v, v, a, b);
            if v.incoming.len() > 0 {
                lemma_emit_fits(v, b, ActionView::CaptureReenable);
                lemma_steps_fit(v, v, b, b.emit(ActionView::CaptureReenable));
            }
        } else {
            let a = v.emit(ActionView::EmulationSetEnabled(false));
            let b = a.emit(ActionView::SetServer(None));
            lemma_steps_fit(v, v, a, b);
            lemma_steps_fit(v, v, b, b.emit(ActionView::CaptureSetEnabled(false)));
        }
    }
}

/// Whatever input emulation, input capture and name resolution tell, every
/// action fits the role of the service.
pub proof fn lemma_event_actions_fit(
    v: ServiceView,
    e: EmulationEvent,
    c: ICaptureEvent,
    d: DnsEvent,
)
    ensures
        added_fit(v, v, v.emulation_event(e)),
        added_fit(v, v, v.capture_event(c)),
        added_fit(v, v, v.resolver_event(d)),
{
    lemma_emulation_actions_fit(v, e);
    if let ICaptureEvent::DeviceConnected { addr, fingerprint } = c {
        if let Some(pos) = v.clients.first_free_position() {
            lemma_assign_fits(v, v, fingerprint@, pos);
            lemma_saved_fits(v, v, v.assign_position(fingerprint@, pos));
        }
    }
    if let DnsEvent::Resolved(h, ips) = d {
        let found = match ips {
            Some(ips) => ips@,
            None => seq![],
        };
        let a = ServiceView { server_dns_ips: found, ..v };
        lemma_idle_fits(v, v, a);
        lemma_dial_fits(v, a);
        lemma_steps_fit(v, v, a, a.push_server_target());
    }
}

/// What input emulation tells fits.
proof fn lemma_emulation_actions_fit(v: ServiceView, e: EmulationEvent)
    ensures
        added_fit(v, v, v.emulation_event(e)),
{
    match e {
        EmulationEvent::Entered { addr, pos, fingerprint } => {
            let f = fingerprint@;
            let told = ActionView::Notify(
                FrontendEventView::DeviceEntered { fingerprint: f, addr, pos },
            );
            lemma_add_incoming_fits(v, v, addr, pos, f);
            let a = v.add_incoming(addr, pos, f);
            lemma_emit_fits(v, a, told);
            lemma_steps_fit(v, v, a, a.emit(told));
            reveal(ServiceView::update_incoming);
            let b = v.remove_incoming(addr);
            lemma_remove_incoming_fits(v, v, addr);
            let c = b.add_incoming(addr, pos, f);
            lemma_add_incoming_fits(v, b, addr, pos, f);
            lemma_steps_fit(v, v, b, c);
            let gone = ActionView::Notify(FrontendEventView::IncomingDisconnected(addr));
            let d = c.emit(gone);
            lemma_emit_fits(v, c, gone);
            lemma_steps_fit(v, v, c, d);
            lemma_emit_fits(v, d, told);
            lemma_steps_fit(v, v, d, d.emit(told));
        },
        EmulationEvent::Disconnected { addr } => {
            lemma_remove_incoming_fits(v, v, addr);
            let b = v.remove_incoming(addr);
            let gone = ActionView::Notify(FrontendEventView::IncomingDisconnected(addr));
            lemma_emit_fits(v, b, gone);
            lemma_steps_fit(v, v, b, b.emit(gone));
        },
        EmulationEvent::EmulationEnabled => {
            let a = ServiceView { emulation_status: Status::Enabled, ..v };
            lemma_idle_fits(v, v, a);
            lemma_dial_fits(v, a);
            let b = a.push_server_target();
            lemma_steps_fit(v, v, a, b);
            let told = ActionView::Notify(FrontendEventView::EmulationStatus(Status::Enabled));
            lemma_emit_fits(v, b, told);
            lemma_steps_fit(v, v, b, b.emit(told));
        },
        _ => {},
    }
}

/// Barriers that come down start nothing.
proof fn lemma_destroy_captures_is_quiet(v: ServiceView, handles: Seq<ClientHandle>)
    ensures
        ({
            let w = v.destroy_captures(handles);
            &&& v.actions.is_prefix_of(w.actions)
            &&& forall|i: int|
                v.actions.len() <= i < w.actions.len() ==> !is_start(#[trigger] w.actions[i])
        }),
    decreases handles.len(),
{
    if handles.len() > 0 {
        lemma_destroy_captures_is_quiet(v, handles.drop_last());
        let u = v.destroy_captures(handles.drop_last());
        let w = v.destroy_captures(handles);
        assert forall|i: int| v.actions.len() <= i < w.actions.len() implies !is_start(
            #[trigger] w.actions[i],
        ) by {
            if i < u.actions.len() {
                assert(w.actions[i] == u.actions[i]);
            }
        }
    }
}

/// Changing the role only ends what the other role did. It starts neither
/// capture nor emulation nor a dial: that is up to the user.
pub proof fn lemma_mode_change_starts_nothing(v: ServiceView, mode: OperationMode)
    ensures
        ({
            let w = v.apply_operation_mode(mode);
            &&& v.actions.is_prefix_of(w.actions)
            &&& forall|i: int|
                v.actions.len() <= i < w.actions.len() ==> !is_start(#[trigger] w.actions[i])
        }),
{
    let w = v.apply_operation_mode(mode);
    match mode {
        OperationMode::Server => {
            let idle = ServiceView { mode: OperationMode::Unconfigured, incoming: seq![], ..v };
            v.lemma_mode_frame(mode);
            lemma_mode_change_fits(idle, v, mode);
            assert forall|i: int| v.actions.len() <= i < w.actions.len() implies !is_start(
                #[trigger] w.actions[i],
            ) by {
                assert(fits(idle, w, w.actions[i]));
            }
        },
        OperationMode::Unconfigured => {
            reveal(ServiceView::apply_operation_mode);
        },
        OperationMode::Client => {
            reveal(ServiceView::apply_operation_mode);
            let a = ServiceView { mode, ..v }.emit(ActionView::StopListening);
            let handles = a.clients.active_handles();
            lemma_destroy_captures_is_quiet(a, handles);
            let b = a.destroy_captures(handles);
            assert forall|i: int| v.actions.len() <= i < w.actions.len() implies !is_start(
                #[trigger] w.actions[i],
            ) by {
                if i < b.actions.len() {
                    assert(w.actions[i] == b.actions[i]);
                    if i < a.actions.len() {
                        assert(b.actions[i] == a.actions[i]);
                    }
                }
            }
            assert forall|i: int| 0 <= i < v.actions.len() implies w.actions[i] == v.actions[i] by {
                assert(b.actions.take(a.actions.len() as int)[i] == a.actions[i]);
            }
            assert(v.actions.is_prefix_of(w.actions));
        },
    }
}

/// Between two states actions were added, and none of them dials.
spec fn undialed(v: ServiceView, w: ServiceView) -> bool {
    &&& v.actions.is_prefix_of(w.actions)
    &&& forall|i: int|
        v.actions.len() <= i < w.actions.len() ==> !(#[trigger] w.actions[i] matches ActionView::SetServer(
            Some(_),
        ))
}

/// Steps that dial no one add up.
proof fn lemma_undialed_steps(u: ServiceView, v: ServiceView, w: ServiceView)
    requires
        undialed(u, v),
        undialed(v, w),
    ensures
        undialed(u, w),
{
    assert forall|i: int| u.actions.len() <= i < w.actions.len() implies !(
    #[trigger] w.actions[i] matches ActionView::SetServer(Some(_))) by {
        if i < v.actions.len() {
            assert(w.actions[i] == v.actions[i]);
        }
    }
}

/// Removing clients fits, and dials no one.
proof fn lemma_remove_clients_fit(s: ServiceView, v: ServiceView, handles: Seq<ClientHandle>)
    ensures
        step_fits(s, v, v.remove_clients(handles)),
        undialed(v, v.remove_clients(handles)),
    decreases handles.len(),
{
    if handles.len() > 0 {
        let init = handles.drop_last();
        let u = v.remove_clients(init);
        lemma_remove_clients_fit(s, v, init);
        lemma_remove_client_fits(s, u, handles.last());
        lemma_steps_fit(s, v, u, u.remove_client(handles.last()));
        reveal(ServiceView::remove_client);
    }
}

/// Making a client active dials no one.
proof fn lemma_activate_undialed(v: ServiceView, h: ClientHandle)
    ensures
        undialed(v, v.activate_client(h)),
{
    reveal(ServiceView::activate_client);
    reveal(ServiceView::deactivate_client);
}

/// Adding the clients of the configuration file fits, and dials no one.
proof fn lemma_load_clients_fit(s: ServiceView, v: ServiceView, clients: Seq<ConfigClientView>)
    ensures
        step_fits(s, v, v.load_clients(clients)),
        undialed(v, v.load_clients(clients)),
    decreases clients.len(),
{
    if clients.len() > 0 {
        let init = clients.drop_last();
        lemma_load_clients_fit(s, v, init);
        let u = v.load_clients(init);
        let c = clients.last();
        let h = u.clients.next_handle();
        let created = ActionView::Notify(
            FrontendEventView::Created(h, configured_client(c).config, configured_client(c).state),
        );
        let loaded = u.with_clients(u.clients.insert(configured_client(c)));
        if c.active {
            let off = loaded.with_clients(loaded.clients.set_active(h, false));
            lemma_steps_fit(s, v, u, off);
            let on = off.activate_client(h);
            lemma_activate_fits(s, off, h);
            lemma_activate_undialed(off, h);
            lemma_steps_fit(s, v, off, on);
            lemma_emit_fits(s, on, created);
            lemma_steps_fit(s, v, on, on.emit(created));
            lemma_undialed_steps(v, u, on);
            lemma_undialed_steps(v, on, on.emit(created));
        } else {
            lemma_steps_fit(s, v, u, loaded);
            lemma_emit_fits(s, loaded, created);
            lemma_steps_fit(s, v, loaded, loaded.emit(created));
            lemma_undialed_steps(v, u, loaded.emit(created));
        }
    }
}

/// Taking over a changed configuration file emits nothing that does not fit
/// the role that the file gives.
pub proof fn lemma_config_change_actions_fit(v: ServiceView, new: SavedView, bind: Seq<u32>)
    ensures
        added_fit(v, v, v.config_change(new, bind)),
{
    let read = v.read(new);
    let told = ActionView::Notify(FrontendEventView::OperationMode(new.role()));
    let moded = read.apply_operation_mode(new.role());
    let switched = if new.role() != v.mode {
        moded.emit(told)
    } else {
        read
    };
    lemma_idle_fits(v, v, read);
    if new.role() != v.mode {
        lemma_mode_change_fits(v, read, new.role());
        lemma_mode_change_starts_nothing(read, new.role());
        lemma_emit_fits(v, moded, told);
        lemma_steps_fit(v, v, moded, switched);
    }
    assert(undialed(v, switched));
    let handles = switched.clients.handles();
    let cleared = switched.remove_clients(handles);
    lemma_remove_clients_fit(v, switched, handles);
    lemma_steps_fit(v, v, switched, cleared);
    let filled = cleared.load_clients(new.clients);
    lemma_load_clients_fit(v, cleared, new.clients);
    lemma_steps_fit(v, v, cleared, filled);
    let bound = filled.emit(ActionView::SetReleaseBind(bind));
    lemma_steps_fit(v, v, filled, bound);
    let loaded = ServiceView { keys: new.keys, ..bound };
    lemma_steps_fit(v, v, bound, loaded);
    lemma_undialed_steps(v, switched, cleared);
    lemma_undialed_steps(v, cleared, filled);
    lemma_undialed_steps(v, filled, loaded);
    let dialed = if loaded.mode == OperationMode::Client {
        let forgot = ServiceView { server_dns_ips: seq![], ..loaded };
        assert forall|i: int| v.actions.len() <= i < forgot.actions.len() implies fits(
            v,
            forgot,
            #[trigger] forgot.actions[i],
        ) by {
            assert(fits(v, loaded, loaded.actions[i]));
        }
        let asked = forgot.resolve_server();
        lemma_plain_steps_fit(v, forgot, 0);
        lemma_steps_fit(v, v, forgot, asked);
        lemma_dial_fits(v, asked);
        lemma_steps_fit(v, v, asked, asked.push_server_target());
        asked.push_server_target()
    } else {
        loaded
    };
    lemma_sync_fits(v, dialed);
    lemma_steps_fit(v, v, dialed, dialed.sync_frontend());
}

/// Clients that are noted as inactive cause no action.
proof fn lemma_forget_active_fits(s: ServiceView, v: ServiceView, handles: Seq<ClientHandle>)
    ensures
        step_fits(s, v, v.forget_active(handles)),
    decreases handles.len(),
{
    if handles.len() > 0 {
        let u = v.forget_active(handles.drop_last());
        lemma_forget_active_fits(s, v, handles.drop_last());
        lemma_steps_fit(s, v, u, v.forget_active(handles));
    }
}

/// Making clients active one after the other fits.
proof fn lemma_activate_clients_fit(s: ServiceView, v: ServiceView, handles: Seq<ClientHandle>)
    ensures
        step_fits(s, v, v.activate_clients(handles)),
    decreases handles.len(),
{
    if handles.len() > 0 {
        let u = v.activate_clients(handles.drop_last());
        lemma_activate_clients_fit(s, v, handles.drop_last());
        lemma_activate_fits(s, u, handles.last());
        lemma_steps_fit(s, v, u, u.activate_client(handles.last()));
    }
}

/// Starting the service emits nothing that does not fit its role.
pub proof fn lemma_startup_actions_fit(v: ServiceView)
    ensures
        added_fit(v, v, v.startup()),
{
    let active = v.clients.active_handles();
    let u = v.forget_active(active);
    lemma_forget_active_fits(v, v, active);
    let w = u.activate_clients(active);
    lemma_activate_clients_fit(v, u, active);
    lemma_steps_fit(v, v, u, w);
    lemma_plain_steps_fit(v, w, 0);
    lemma_steps_fit(v, v, w, w.resolve_server());
}

/// Moving or pairing changes nothing but the clients.
proof fn lemma_client_frames(v: ServiceView, h: ClientHandle, f: Seq<char>, pos: Position)
    ensures
        ({
            let w = v.update_pos(h, pos);
            w == ServiceView { clients: w.clients, actions: w.actions, ..v }
        }),
        ({
            let w = v.assign_position(f, pos);
            w == ServiceView { clients: w.clients, actions: w.actions, ..v }
        }),
{
    lemma_move_frame(v, h, pos);
    reveal(ServiceView::assign_position);
    reveal(ServiceView::adopt_parked);
    reveal(ServiceView::notify_created);
    match v.clients.first(QueryView::Fingerprint(f)) {
        Some(k) => {
            lemma_move_frame(v, k, pos);
            v.update_pos(k, pos).adopt_parked(k, f).lemma_activate_frame(k);
        },
        None => {
            let k = v.clients.next_handle();
            let added = v.add_with_config(ServiceView::paired_config(f, pos)).notify_created(k);
            added.adopt_parked(k, f).lemma_activate_frame(k);
        },
    }
}

/// Moving a client changes nothing but the clients.
proof fn lemma_move_frame(v: ServiceView, h: ClientHandle, pos: Position)
    ensures
        ({
            let w = v.update_pos(h, pos);
            w == ServiceView { clients: w.clients, actions: w.actions, ..v }
        }),
{
    reveal(ServiceView::update_pos);
    let moved = v.with_clients(v.clients.set_pos(h, pos));
    moved.lemma_deactivate_frame(h);
    moved.deactivate_client(h).lemma_activate_frame(h);
}

/// Whatever a frontend asks, the devices that entered stay told apart.
pub proof fn lemma_request_keeps_incoming(v: ServiceView, r: FrontendRequest)
    requires
        incoming_in_order(v),
    ensures
        incoming_in_order(v.request(r)),
{
    reveal(ServiceView::save_config);
    match r {
        FrontendRequest::Activate(h, active) => {
            v.lemma_activate_frame(h);
            v.lemma_deactivate_frame(h);
        },
        FrontendRequest::Create => {
            reveal(ServiceView::notify_created);
        },
        FrontendRequest::CreateConfigured { config, active } => {
            reveal(ServiceView::add_configured_client);
            reveal(ServiceView::notify_created);
            v.add_with_config(config@).lemma_activate_frame(v.clients.next_handle());
        },
        FrontendRequest::Delete(h) => {
            reveal(ServiceView::remove_client);
        },
        FrontendRequest::SetServiceRunning(running) => {
            reveal(ServiceView::set_service_running);
            reveal(ServiceView::push_server_target);
        },
        FrontendRequest::SetOperationMode(mode) => {
            reveal(ServiceView::set_operation_mode);
            lemma_mode_keeps_incoming(v, mode);
        },
        FrontendRequest::UpdateFixIps(h, ips) => {
            reveal(ServiceView::update_fix_ips);
        },
        FrontendRequest::UpdateHostname(h, name) => {
            reveal(ServiceView::update_hostname);
        },
        FrontendRequest::UpdatePosition(h, pos) => {
            lemma_client_frames(v, h, seq![], pos);
        },
        FrontendRequest::AssignPosition { fingerprint, pos } => {
            lemma_client_frames(v, 0, fingerprint@, pos);
        },
        FrontendRequest::SetServer { hostname, ips, port } => {
            reveal(ServiceView::set_server_endpoint);
            reveal(ServiceView::push_server_target);
        },
        FrontendRequest::Sync => {
            reveal(ServiceView::sync_frontend);
        },
        FrontendRequest::UpdateEnterHook(h, cmd) => {
            reveal(ServiceView::update_enter_hook);
        },
        _ => {},
    }
}

/// Whatever input capture and name resolution tell, the devices that entered
/// stay told apart.
pub proof fn lemma_other_events_keep_incoming(v: ServiceView, e: ICaptureEvent, d: DnsEvent)
    requires
        incoming_in_order(v),
    ensures
        incoming_in_order(v.capture_event(e)),
        incoming_in_order(v.resolver_event(d)),
{
    reveal(ServiceView::save_config);
    reveal(ServiceView::push_server_target);
    if let ICaptureEvent::DeviceConnected { addr, fingerprint } = e {
        if let Some(pos) = v.clients.first_free_position() {
            lemma_client_frames(v, 0, fingerprint@, pos);
        }
    }
}

/// Whatever happens, the configuration file goes on naming the role that it
/// names, or none, unless the user selects another.
pub proof fn lemma_events_name_no_role(
    v: ServiceView,
    e: EmulationEvent,
    c: ICaptureEvent,
    d: DnsEvent,
)
    ensures
        v.emulation_event(e).configured == v.configured,
        v.capture_event(c).configured == v.configured,
        v.resolver_event(d).configured == v.configured,
{
    reveal(ServiceView::save_config);
    reveal(ServiceView::push_server_target);
    reveal(ServiceView::add_incoming);
    reveal(ServiceView::remove_incoming);
    reveal(ServiceView::update_incoming);
    if let ICaptureEvent::DeviceConnected { addr, fingerprint } = c {
        if let Some(pos) = v.clients.first_free_position() {
            lemma_client_frames(v, 0, fingerprint@, pos);
        }
    }
}

/// The role that the configuration file names changes only where the user
/// selects another one. Where it names none, it goes on naming none, whatever
/// else is kept.
pub proof fn lemma_only_the_user_names_the_role(v: ServiceView, r: FrontendRequest)
    ensures
        v.request(r).configured == (match r {
            FrontendRequest::SetOperationMode(mode) if mode != v.mode => Some(mode),
            _ => v.configured,
        }),
{
    reveal(ServiceView::save_config);
    match r {
        FrontendRequest::Activate(h, active) => {
            v.lemma_activate_frame(h);
            v.lemma_deactivate_frame(h);
        },
        FrontendRequest::Create => {
            reveal(ServiceView::notify_created);
        },
        FrontendRequest::CreateConfigured { config, active } => {
            reveal(ServiceView::add_configured_client);
            reveal(ServiceView::notify_created);
            v.add_with_config(config@).lemma_activate_frame(v.clients.next_handle());
        },
        FrontendRequest::Delete(h) => {
            reveal(ServiceView::remove_client);
        },
        FrontendRequest::SetServiceRunning(running) => {
            reveal(ServiceView::set_service_running);
            reveal(ServiceView::push_server_target);
        },
        FrontendRequest::SetOperationMode(mode) => {
            reveal(ServiceView::set_operation_mode);
        },
        FrontendRequest::UpdateFixIps(h, ips) => {
            reveal(ServiceView::update_fix_ips);
        },
        FrontendRequest::UpdateHostname(h, name) => {
            reveal(ServiceView::update_hostname);
        },
        FrontendRequest::UpdatePosition(h, pos) => {
            lemma_client_frames(v, h, seq![], pos);
        },
        FrontendRequest::AssignPosition { fingerprint, pos } => {
            lemma_client_frames(v, 0, fingerprint@, pos);
        },
        FrontendRequest::SetServer { hostname, ips, port } => {
            reveal(ServiceView::set_server_endpoint);
            reveal(ServiceView::push_server_target);
        },
        FrontendRequest::Sync => {
            reveal(ServiceView::sync_frontend);
        },
        FrontendRequest::UpdateEnterHook(h, cmd) => {
            reveal(ServiceView::update_enter_hook);
        },
        _ => {},
    }
}

/// Taking over a changed configuration file, and starting, leave the devices
/// that entered told apart.
pub proof fn lemma_config_change_keeps_incoming(v: ServiceView, new: SavedView, bind: Seq<u32>)
    requires
        incoming_in_order(v),
        v.clients.wf(),
        new.clients.len() <= crate::client::MAX_CLIENTS,
    ensures
        incoming_in_order(v.config_change(new, bind)),
        incoming_in_order(v.startup()),
{
    let read = v.read(new);
    read.lemma_mode_frame(new.role());
    lemma_mode_keeps_incoming(read, new.role());
    let switched = if new.role() != v.mode {
        read.apply_operation_mode(new.role()).notify(FrontendEventView::OperationMode(new.role()))
    } else {
        read
    };
    let handles = switched.clients.handles();
    switched.lemma_remove_clients_frame(handles);
    switched.lemma_remove_all_clients();
    switched.remove_clients(handles).lemma_load_clients_frame(new.clients);
    reveal(ServiceView::push_server_target);
    reveal(ServiceView::sync_frontend);
    let active = v.clients.active_handles();
    lemma_forget_active_frame(v, active);
    lemma_activate_clients_frame(v.forget_active(active), active);
}

/// Noting clients as inactive changes nothing but the clients.
proof fn lemma_forget_active_frame(v: ServiceView, handles: Seq<ClientHandle>)
    ensures
        v.forget_active(handles) == v.with_clients(v.forget_active(handles).clients),
    decreases handles.len(),
{
    if handles.len() > 0 {
        lemma_forget_active_frame(v, handles.drop_last());
    }
}

/// Making clients active changes nothing but the clients.
proof fn lemma_activate_clients_frame(v: ServiceView, handles: Seq<ClientHandle>)
    ensures
        ({
            let w = v.activate_clients(handles);
            w == ServiceView { clients: w.clients, actions: w.actions, ..v }
        }),
    decreases handles.len(),
{
    if handles.len() > 0 {
        lemma_activate_clients_frame(v, handles.drop_last());
        v.activate_clients(handles.drop_last()).lemma_activate_frame(handles.last());
    }
}

/// A device that waits can be entered only once it is paired: pairing makes
/// its fingerprint lead to a client whose connection is the waiting one.
pub proof fn lemma_pairing_binds_the_connection(v: ServiceView, f: Seq<char>, pos: Position)
    requires
        in_order(v.clients),
        v.clients.room(1),
        v.clients.parked.contains_key(f),
        v.clients.first(QueryView::Fingerprint(f)) is None,
    ensures
        ({
            let w = v.assign_position(f, pos).clients;
            let h = v.clients.next_handle();
            &&& w.get(h) matches Some(c) && c.config.fingerprint == Some(f) && c.config.pos == pos
                && c.state.active && c.state.active_addr == Some(v.clients.parked[f])
            &&& !w.parked.contains_key(f)
        }),
{
    reveal(ServiceView::assign_position);
    reveal(ServiceView::adopt_parked);
    reveal(ServiceView::notify_created);
    let h = v.clients.next_handle();
    let fresh = ClientView {
        config: crate::ipc::default_config(),
        state: crate::ipc::default_state(),
    };
    v.clients.lemma_insert(fresh);
    let added = v.add_with_config(ServiceView::paired_config(f, pos)).notify_created(h);
    let bound = added.adopt_parked(h, f);
    assert(bound.clients.get(h) matches Some(c) && c.config.pos == pos);
    bound.lemma_activate_frame(h);
    crate::client::lemma_first_match(bound.clients.slots, QueryView::ActiveAt(pos));
}

} // verus!
