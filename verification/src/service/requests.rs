//! What every request of a frontend comes to.
//!
//! Each law speaks of a call: of what the service is afterwards, and what is
//! to be done.

use super::effects::{adds, lemma_saves_last, saves};
use super::{ActionView, Service, ServiceView};
use crate::capture::CaptureType;
use crate::client::laws::only;
use crate::client::{slot, ClientView, ManagerView, QueryView};
use crate::ipc::{
    ClientConfig, ClientHandle, ConfigView, FrontendEventView, FrontendRequest, OperationMode,
    Position, StateView,
};
use crate::net::IpAddr;
use crate::text::opt_view;
use vstd::prelude::*;

verus! {

/// The frontends learn of a client as it is.
pub open spec fn told(h: ClientHandle, c: ClientView) -> ActionView {
    ActionView::Notify(FrontendEventView::State(h, c.config, c.state))
}

/// Between two states of the service only the clients changed, and what is to
/// be done.
pub open spec fn same_but_clients(a: ServiceView, b: ServiceView) -> bool {
    b == (ServiceView { clients: b.clients, actions: b.actions, ..a })
}

/// A fingerprint that is authorized is from then on, under its description;
/// the others stay as they are. The frontends learn of it, and it is kept.
pub proof fn lemma_key_is_authorized(s: &mut Service, desc: String, fp: String)
    requires
        call_ensures(
            Service::handle_frontend_request,
            (s, FrontendRequest::AuthorizeKey(desc, fp)),
            (),
        ),
    ensures
        final(s)@.keys == old(s)@.keys.insert(fp@, desc@),
        final(s)@ == (ServiceView {
            keys: final(s)@.keys,
            actions: final(s)@.actions,
            ..old(s)@
        }),
        saves(
            old(s)@,
            final(s)@,
            seq![ActionView::Notify(FrontendEventView::AuthorizedUpdated(final(s)@.keys))],
        ),
{
    let a = old(s)@;
    let m = a.set_keys(a.keys.insert(fp@, desc@));
    let acts = seq![
        ActionView::Notify(FrontendEventView::AuthorizedUpdated(a.keys.insert(fp@, desc@))),
    ];
    assert(m.actions =~= a.actions + acts);
    lemma_saves_last(a, m, acts);
}

/// A fingerprint that is no longer authorized is not, and the others stay as
/// they are. The frontends learn of it, and it is kept.
pub proof fn lemma_key_is_taken_back(s: &mut Service, fp: String)
    requires
        call_ensures(
            Service::handle_frontend_request,
            (s, FrontendRequest::RemoveAuthorizedKey(fp)),
            (),
        ),
    ensures
        final(s)@.keys == old(s)@.keys.remove(fp@),
        final(s)@ == (ServiceView {
            keys: final(s)@.keys,
            actions: final(s)@.actions,
            ..old(s)@
        }),
        saves(
            old(s)@,
            final(s)@,
            seq![ActionView::Notify(FrontendEventView::AuthorizedUpdated(final(s)@.keys))],
        ),
{
    let a = old(s)@;
    let m = a.set_keys(a.keys.remove(fp@));
    let acts = seq![ActionView::Notify(FrontendEventView::AuthorizedUpdated(a.keys.remove(fp@)))];
    assert(m.actions =~= a.actions + acts);
    lemma_saves_last(a, m, acts);
}

/// Just the fingerprints that were authorized are.
pub proof fn lemma_authorized_keys(s: &Service, f: &str, b: bool)
    requires
        call_ensures(Service::is_authorized, (s, f), b),
    ensures
        b <==> s@.keys.contains_key(f@),
{
}

/// Another port is asked for; the one that is in use is told at once.
pub proof fn lemma_port_is_asked_for(s: &mut Service, port: u16)
    requires
        call_ensures(Service::handle_frontend_request, (s, FrontendRequest::ChangePort(port)), ()),
    ensures
        adds(
            old(s)@,
            final(s)@,
            seq![
                if port == old(s)@.port {
                    ActionView::Notify(FrontendEventView::PortChanged(port, None))
                } else {
                    ActionView::RequestPortChange(port)
                },
            ],
        ),
{
    assert(final(s)@.actions =~= old(s)@.actions + seq![final(s)@.actions.last()]);
}

/// A client that is asked for is there, with nothing set, beside all others;
/// the frontends learn of it, and it is kept.
pub proof fn lemma_client_is_created(s: &mut Service)
    requires
        old(s)@.clients.wf(),
        old(s)@.clients.room(1),
        call_ensures(Service::handle_frontend_request, (s, FrontendRequest::Create), ()),
    ensures
        ({
            let a = old(s)@;
            let b = final(s)@;
            let h = a.clients.next_handle();
            let c = ClientView {
                config: ConfigView {
                    hostname: None,
                    fix_ips: seq![],
                    port: 4242,
                    pos: Position::Left,
                    cmd: None,
                    fingerprint: None,
                },
                state: StateView {
                    active: false,
                    active_addr: None,
                    alive: false,
                    dns_ips: seq![],
                    ips: Set::empty(),
                    has_pressed_keys: false,
                    resolving: false,
                    peer_commit: None,
                },
            };
            &&& a.clients.get(h) is None
            &&& b.clients.get(h) == Some(c)
            &&& forall|k: ClientHandle|
                slot(k) != slot(h) ==> #[trigger] b.clients.get(k) == a.clients.get(k)
            &&& b.clients.parked == a.clients.parked
            &&& same_but_clients(a, b)
            &&& saves(
                a,
                b,
                seq![ActionView::Notify(FrontendEventView::Created(h, c.config, c.state))],
            )
        }),
{
    reveal(ServiceView::notify_created);
    let a = old(s)@;
    let h = a.clients.next_handle();
    let c = ClientView {
        config: crate::ipc::default_config(),
        state: crate::ipc::default_state(),
    };
    a.clients.lemma_insert(c);
    assert(c.config.fix_ips =~= seq![]);
    assert(c.state.dns_ips =~= seq![]);
    let m = a.add_client();
    let acts = seq![ActionView::Notify(FrontendEventView::Created(h, c.config, c.state))];
    assert(m.actions =~= a.actions + acts);
    lemma_saves_last(a, m, acts);
}

/// A client that is asked for with its configuration is there with it, beside
/// all others; where it is not to be active, the frontends learn of it, it is
/// kept, and nothing more happens.
pub proof fn lemma_configured_client_is_created(s: &mut Service, config: ClientConfig)
    requires
        old(s)@.clients.wf(),
        old(s)@.clients.room(1),
        call_ensures(
            Service::handle_frontend_request,
            (s, FrontendRequest::CreateConfigured { config, active: false }),
            (),
        ),
    ensures
        ({
            let a = old(s)@;
            let b = final(s)@;
            let h = a.clients.next_handle();
            &&& a.clients.get(h) is None
            &&& b.clients.get(h) matches Some(c) && c.config == config@ && !c.state.active
                && c.state.active_addr is None
            &&& forall|k: ClientHandle|
                slot(k) != slot(h) ==> #[trigger] b.clients.get(k) == a.clients.get(k)
            &&& b.clients.parked == a.clients.parked
            &&& same_but_clients(a, b)
            &&& b.clients.get(h) matches Some(c) && saves(
                a,
                b,
                seq![ActionView::Notify(FrontendEventView::Created(h, c.config, c.state))],
            )
        }),
{
    reveal(ServiceView::notify_created);
    reveal(ServiceView::add_configured_client);
    let a = old(s)@;
    let h = a.clients.next_handle();
    let d = ClientView {
        config: crate::ipc::default_config(),
        state: crate::ipc::default_state(),
    };
    a.clients.lemma_insert(d);
    let c = ClientView { config: config@, ..d };
    let m = a.add_configured_client(config@, false);
    assert(m.clients.get(h) == Some(c));
    let acts = seq![ActionView::Notify(FrontendEventView::Created(h, c.config, c.state))];
    assert(m.actions =~= a.actions + acts);
    lemma_saves_last(a, m, acts);
}

/// A client that is deleted is gone, and its barrier with it where it was
/// active; the others stay, the frontends learn of it, and it is kept.
pub proof fn lemma_client_is_deleted(s: &mut Service, h: ClientHandle)
    requires
        old(s)@.clients.wf(),
        call_ensures(Service::handle_frontend_request, (s, FrontendRequest::Delete(h)), ()),
    ensures
        ({
            let a = old(s)@;
            let b = final(s)@;
            let gone = ActionView::Notify(FrontendEventView::Deleted(h));
            &&& b.clients.get(h) is None
            &&& forall|k: ClientHandle|
                slot(k) != slot(h) ==> #[trigger] b.clients.get(k) == a.clients.get(k)
            &&& b.clients.parked == a.clients.parked
            &&& same_but_clients(a, b)
            &&& saves(
                a,
                b,
                if a.clients.get(h) matches Some(c) && c.state.active {
                    seq![ActionView::CaptureDestroy(h), gone]
                } else {
                    seq![gone]
                },
            )
        }),
{
    reveal(ServiceView::remove_client);
    let a = old(s)@;
    let m = a.remove_client(h);
    a.clients.lemma_remove(h);
    let gone = ActionView::Notify(FrontendEventView::Deleted(h));
    let acts = if a.clients.get(h) matches Some(c) && c.state.active {
        seq![ActionView::CaptureDestroy(h), gone]
    } else {
        seq![gone]
    };
    assert(m.actions =~= a.actions + acts);
    lemma_saves_last(a, m, acts);
}

/// A client that is deactivated gives up its barrier and is told as inactive;
/// one that is inactive already, or not there, stays as it is. It is kept.
pub proof fn lemma_client_is_deactivated(s: &mut Service, h: ClientHandle, c: ClientView)
    requires
        call_ensures(
            Service::handle_frontend_request,
            (s, FrontendRequest::Activate(h, false)),
            (),
        ),
    ensures
        ({
            let a = old(s)@;
            let b = final(s)@;
            let d = ClientView { state: StateView { active: false, ..c.state }, ..c };
            &&& same_but_clients(a, b)
            &&& a.clients.get(h) is None ==> b.clients == a.clients && saves(a, b, seq![])
            &&& a.clients.get(h) == Some(c) && !c.state.active ==> b.clients == a.clients && saves(
                a,
                b,
                seq![],
            )
            &&& a.clients.get(h) == Some(c) && c.state.active ==> {
                &&& b.clients.get(h) == Some(d)
                &&& only(a.clients, b.clients, h)
                &&& saves(a, b, seq![ActionView::CaptureDestroy(h), told(h, d)])
            }
        }),
{
    reveal(ServiceView::deactivate_client);
    let a = old(s)@;
    let m = a.deactivate_client(h);
    let d = ClientView { state: StateView { active: false, ..c.state }, ..c };
    if a.clients.get(h) == Some(c) && c.state.active {
        let acts = seq![ActionView::CaptureDestroy(h), told(h, d)];
        assert(m.actions =~= a.actions + acts);
        lemma_saves_last(a, m, acts);
    } else {
        assert(m == a || (a.clients.get(h) matches Some(e) && e != c));
        assert(a.actions =~= a.actions + seq![]);
        lemma_saves_last(a, a, seq![]);
        if let Some(e) = a.clients.get(h) {
            let f = ClientView { state: StateView { active: false, ..e.state }, ..e };
            if e.state.active {
                let acts = seq![ActionView::CaptureDestroy(h), told(h, f)];
                assert(m.actions =~= a.actions + acts);
                lemma_saves_last(a, m, acts);
            }
        }
    }
}

/// The name of a client, where it has one, is resolved.
pub open spec fn looked_up(h: ClientHandle, c: ClientView) -> Seq<ActionView> {
    match c.config.hostname {
        Some(name) => seq![ActionView::Resolve(h, name)],
        None => seq![],
    }
}

/// A client as it is when active, or not.
pub open spec fn switched(c: ClientView, active: bool) -> ClientView {
    ClientView { state: StateView { active, ..c.state }, ..c }
}

/// Another client `o` that is active at an edge gives up its barrier.
pub open spec fn gives_way(m: ManagerView, h: ClientHandle, pos: Position) -> Seq<ActionView> {
    match m.first(QueryView::ActiveAt(pos)) {
        Some(o) if o != h => seq![
            ActionView::CaptureDestroy(o),
            told(o, switched(m.get(o)->0, false)),
        ],
        _ => seq![],
    }
}

/// A client becomes active: a server puts up its barrier, and it is told.
pub open spec fn put_up(v: ServiceView, h: ClientHandle, c: ClientView) -> Seq<ActionView> {
    if c.state.active {
        seq![]
    } else if v.mode == OperationMode::Server {
        seq![
            ActionView::CaptureCreate(h, c.config.pos, CaptureType::Default),
            told(h, switched(c, true)),
        ]
    } else {
        seq![told(h, switched(c, true))]
    }
}

/// What making a client active comes to.
pub proof fn lemma_activation(v: ServiceView, h: ClientHandle, c: ClientView)
    requires
        v.clients.slots.len() <= usize::MAX,
        h < v.clients.slots.len(),
        v.clients.get(h) == Some(c),
    ensures
        ({
            let b = v.activate_client(h);
            let o = v.clients.first(QueryView::ActiveAt(c.config.pos));
            &&& same_but_clients(v, b)
            &&& b.clients.get(h) == Some(switched(c, true))
            &&& b.clients.slots.len() == v.clients.slots.len()
            &&& b.clients.free == v.clients.free
            &&& b.clients.parked == v.clients.parked
            &&& o is Some && o != Some(h) ==> b.clients.get(o->0) == Some(
                switched(v.clients.get(o->0)->0, false),
            )
            &&& forall|k: ClientHandle|
                k < v.clients.slots.len() && k != h && Some(k) != o ==> #[trigger] b.clients.get(k)
                    == v.clients.get(k)
            &&& b.actions == v.actions + (looked_up(h, c) + gives_way(v.clients, h, c.config.pos)
                + put_up(v, h, c))
        }),
{
    v.lemma_activate_frame(h);
    lemma_activated_clients(v.clients, h, c, v.activated(h));
    lemma_activation_actions(v, h, c);
}

/// What becomes of the clients when one is made active.
proof fn lemma_activated_clients(m: ManagerView, h: ClientHandle, c: ClientView, n: ManagerView)
    requires
        m.slots.len() <= usize::MAX,
        h < m.slots.len(),
        m.get(h) == Some(c),
        n == match m.first(QueryView::ActiveAt(c.config.pos)) {
            Some(o) if o != h => m.set_active(o, false).set_active(h, true),
            _ => m.set_active(h, true),
        },
    ensures
        ({
            let o = m.first(QueryView::ActiveAt(c.config.pos));
            &&& n.get(h) == Some(switched(c, true))
            &&& o is Some && o != Some(h) ==> n.get(o->0) == Some(
                switched(m.get(o->0)->0, false),
            )
            &&& forall|k: ClientHandle|
                k < m.slots.len() && k != h && Some(k) != o ==> #[trigger] n.get(k) == m.get(k)
        }),
{
    crate::client::lemma_first_match(m.slots, QueryView::ActiveAt(c.config.pos));
    let o = m.first(QueryView::ActiveAt(c.config.pos));
    if o is Some && o != Some(h) {
        let p = m.set_active(o->0, false);
        assert(m.get(o->0) is Some);
        assert(p.get(h) == Some(c));
        assert(p.get(o->0) == Some(switched(m.get(o->0)->0, false)));
        assert(n.get(o->0) == p.get(o->0));
    }
}

/// What is to be done when a client is made active.
proof fn lemma_activation_actions(v: ServiceView, h: ClientHandle, c: ClientView)
    requires
        v.clients.slots.len() <= usize::MAX,
        h < v.clients.slots.len(),
        v.clients.get(h) == Some(c),
    ensures
        v.activate_client(h).actions == v.actions + (looked_up(h, c) + gives_way(
            v.clients,
            h,
            c.config.pos,
        ) + put_up(v, h, c)),
{
    reveal(ServiceView::activate_client);
    let r = v.resolve(h);
    assert(r.actions =~= v.actions + looked_up(h, c));
    let cleared = r.clear_edge(h, c.config.pos);
    lemma_clearing(r, h, c);
    assert(cleared.actions == v.actions + looked_up(h, c) + gives_way(
        v.clients,
        h,
        c.config.pos,
    ));
    let b = v.activate_client(h);
    if !c.state.active {
        assert(cleared.clients.set_active(h, true).get(h) == Some(switched(c, true)));
        assert(b.actions =~= cleared.actions + put_up(v, h, c));
    } else {
        assert(b.actions =~= cleared.actions + put_up(v, h, c));
    }
    assert(b.actions =~= v.actions + (looked_up(h, c) + gives_way(v.clients, h, c.config.pos)
        + put_up(v, h, c)));
}

/// What is to be done when another client gives way.
proof fn lemma_clearing(v: ServiceView, h: ClientHandle, c: ClientView)
    requires
        v.clients.slots.len() <= usize::MAX,
        h < v.clients.slots.len(),
        v.clients.get(h) == Some(c),
    ensures
        v.clear_edge(h, c.config.pos).actions == v.actions + gives_way(v.clients, h, c.config.pos),
        v.clear_edge(h, c.config.pos).clients.get(h) == Some(c),
        v.clear_edge(h, c.config.pos).mode == v.mode,
{
    reveal(ServiceView::deactivate_client);
    crate::client::lemma_first_match(v.clients.slots, QueryView::ActiveAt(c.config.pos));
    let o = v.clients.first(QueryView::ActiveAt(c.config.pos));
    if o is Some && o != Some(h) {
        let e = v.clients.get(o->0)->0;
        assert(v.clients.get(o->0) == Some(e) && e.state.active);
        let n = v.clients.set_active(o->0, false);
        assert(n.get(o->0) == Some(switched(e, false)));
        assert(v.clear_edge(h, c.config.pos) == v.deactivate_client(o->0));
    }
    assert(v.clear_edge(h, c.config.pos).actions =~= v.actions + gives_way(
        v.clients,
        h,
        c.config.pos,
    ));
}

/// A client that is activated is active, at its edge, from which any other
/// gives way; a server puts up its barrier there. Its name is resolved, all of
/// it is told, and it is kept.
pub proof fn lemma_client_is_activated(s: &mut Service, h: ClientHandle, c: ClientView)
    requires
        old(s)@.clients.slots.len() <= usize::MAX,
        h < old(s)@.clients.slots.len(),
        old(s)@.clients.get(h) == Some(c),
        call_ensures(Service::handle_frontend_request, (s, FrontendRequest::Activate(h, true)), ()),
    ensures
        ({
            let a = old(s)@;
            let b = final(s)@;
            let o = a.clients.first(QueryView::ActiveAt(c.config.pos));
            &&& same_but_clients(a, b)
            &&& b.clients.get(h) == Some(switched(c, true))
            &&& o is Some && o != Some(h) ==> b.clients.get(o->0) == Some(
                switched(a.clients.get(o->0)->0, false),
            )
            &&& forall|k: ClientHandle|
                k < a.clients.slots.len() && k != h && Some(k) != o ==> #[trigger] b.clients.get(k)
                    == a.clients.get(k)
            &&& saves(
                a,
                b,
                looked_up(h, c) + gives_way(a.clients, h, c.config.pos) + put_up(a, h, c),
            )
        }),
{
    let a = old(s)@;
    lemma_activation(a, h, c);
    lemma_saves_last(
        a,
        a.activate_client(h),
        looked_up(h, c) + gives_way(a.clients, h, c.config.pos) + put_up(a, h, c),
    );
}

/// A client that moves lies at the new edge. Where it is not active, or was
/// there already, nothing else happens but that it is told and kept.
pub proof fn lemma_inactive_client_moves(
    s: &mut Service,
    h: ClientHandle,
    c: ClientView,
    pos: Position,
)
    requires
        old(s)@.clients.get(h) == Some(c),
        !c.state.active || c.config.pos == pos,
        call_ensures(
            Service::handle_frontend_request,
            (s, FrontendRequest::UpdatePosition(h, pos)),
            (),
        ),
    ensures
        ({
            let a = old(s)@;
            let b = final(s)@;
            let d = ClientView { config: ConfigView { pos, ..c.config }, ..c };
            &&& same_but_clients(a, b)
            &&& b.clients.get(h) == Some(d)
            &&& only(a.clients, b.clients, h)
            &&& saves(a, b, seq![told(h, d)])
        }),
{
    reveal(ServiceView::update_pos);
    let a = old(s)@;
    let d = ClientView { config: ConfigView { pos, ..c.config }, ..c };
    let m = a.update_pos(h, pos);
    assert(m.actions =~= a.actions + seq![told(h, d)]);
    lemma_saves_last(a, m, seq![told(h, d)]);
}

/// What moving an active client comes to.
pub proof fn lemma_moving(v: ServiceView, h: ClientHandle, c: ClientView, pos: Position)
    requires
        v.clients.slots.len() <= usize::MAX,
        h < v.clients.slots.len(),
        v.clients.get(h) == Some(c),
        c.state.active,
        c.config.pos != pos,
    ensures
        ({
            let b = v.update_pos(h, pos);
            let d = ClientView { config: ConfigView { pos, ..c.config }, ..c };
            let o = v.clients.first(QueryView::ActiveAt(pos));
            &&& same_but_clients(v, b)
            &&& b.clients.get(h) == Some(d)
            &&& b.clients.slots.len() == v.clients.slots.len()
            &&& b.clients.free == v.clients.free
            &&& b.clients.parked == v.clients.parked
            &&& o is Some ==> b.clients.get(o->0) == Some(
                switched(v.clients.get(o->0)->0, false),
            )
            &&& forall|k: ClientHandle|
                k < v.clients.slots.len() && k != h && Some(k) != o ==> #[trigger] b.clients.get(k)
                    == v.clients.get(k)
            &&& b.actions == v.actions + (seq![
                ActionView::CaptureDestroy(h),
                told(h, switched(d, false)),
            ] + looked_up(h, c) + gives_way(v.clients, h, pos) + put_up(v, h, switched(d, false))
                + seq![told(h, d)])
        }),
{
    reveal(ServiceView::update_pos);
    reveal(ServiceView::deactivate_client);
    let d = ClientView { config: ConfigView { pos, ..c.config }, ..c };
    let e = switched(d, false);
    let moved = ServiceView { clients: v.clients.set_pos(h, pos), ..v };
    assert(moved.clients.get(h) == Some(d));
    let down = moved.deactivate_client(h);
    assert(down.clients.get(h) == Some(e));
    crate::client::lemma_first_match(v.clients.slots, QueryView::ActiveAt(pos));
    crate::client::lemma_first_match(down.clients.slots, QueryView::ActiveAt(pos));
    let o = v.clients.first(QueryView::ActiveAt(pos));
    let p = down.clients.first(QueryView::ActiveAt(pos));
    assert forall|k: int| 0 <= k < v.clients.slots.len() && k != h implies #[trigger]
        down.clients.slots[k] == v.clients.slots[k] by {}
    assert(o == p) by {
        if o is Some {
            assert(o->0 != h);
            assert(down.clients.slots[o->0 as int] == v.clients.slots[o->0 as int]);
        }
        if p is Some {
            assert(p->0 != h);
            assert(down.clients.slots[p->0 as int] == v.clients.slots[p->0 as int]);
        }
        if o is Some && p is Some {
            assert(!(o->0 < p->0));
            assert(!(p->0 < o->0));
        } else if o is Some {
            assert(down.clients.slots[o->0 as int] == v.clients.slots[o->0 as int]);
        } else if p is Some {
            assert(down.clients.slots[p->0 as int] == v.clients.slots[p->0 as int]);
        }
    }
    lemma_activation(down, h, e);
    assert(switched(e, true) == d);
    assert(gives_way(down.clients, h, pos) == gives_way(v.clients, h, pos));
    assert(put_up(down, h, e) == put_up(v, h, e));
    assert(looked_up(h, e) == looked_up(h, c));
    let b = v.update_pos(h, pos);
    assert(b.actions =~= v.actions + (seq![ActionView::CaptureDestroy(h), told(h, e)] + looked_up(
        h,
        c,
    ) + gives_way(v.clients, h, pos) + put_up(v, h, e) + seq![told(h, d)]));
    assert forall|k: ClientHandle|
        k < v.clients.slots.len() && k != h && Some(k) != o implies #[trigger] b.clients.get(k)
            == v.clients.get(k) by {
        assert(down.clients.slots[k as int] == v.clients.slots[k as int]);
        assert(down.clients.get(k) == v.clients.get(k));
    }
}

/// An active client that moves to another edge takes its barrier along: the
/// old one comes down, any other client gives way at the new edge, and a
/// server puts the barrier up there. It stays active, and is kept.
pub proof fn lemma_active_client_moves(
    s: &mut Service,
    h: ClientHandle,
    c: ClientView,
    pos: Position,
)
    requires
        old(s)@.clients.slots.len() <= usize::MAX,
        h < old(s)@.clients.slots.len(),
        old(s)@.clients.get(h) == Some(c),
        c.state.active,
        c.config.pos != pos,
        call_ensures(
            Service::handle_frontend_request,
            (s, FrontendRequest::UpdatePosition(h, pos)),
            (),
        ),
    ensures
        ({
            let a = old(s)@;
            let b = final(s)@;
            let d = ClientView { config: ConfigView { pos, ..c.config }, ..c };
            let o = a.clients.first(QueryView::ActiveAt(pos));
            &&& same_but_clients(a, b)
            &&& b.clients.get(h) == Some(d)
            &&& o is Some ==> b.clients.get(o->0) == Some(
                switched(a.clients.get(o->0)->0, false),
            )
            &&& forall|k: ClientHandle|
                k < a.clients.slots.len() && k != h && Some(k) != o ==> #[trigger] b.clients.get(k)
                    == a.clients.get(k)
            &&& saves(
                a,
                b,
                seq![ActionView::CaptureDestroy(h), told(h, switched(d, false))] + looked_up(h, c)
                    + gives_way(a.clients, h, pos) + put_up(a, h, switched(d, false)) + seq![
                    told(h, d),
                ],
            )
        }),
{
    let a = old(s)@;
    let d = ClientView { config: ConfigView { pos, ..c.config }, ..c };
    lemma_moving(a, h, c, pos);
    lemma_saves_last(
        a,
        a.update_pos(h, pos),
        seq![ActionView::CaptureDestroy(h), told(h, switched(d, false))] + looked_up(h, c)
            + gives_way(a.clients, h, pos) + put_up(a, h, switched(d, false)) + seq![told(h, d)],
    );
}

/// A client that is named otherwise has the name, and no longer what the old
/// one resolved to nor its connection; the new name is resolved. It is told
/// and kept. The same name again is just told and kept.
pub proof fn lemma_client_is_named(
    s: &mut Service,
    h: ClientHandle,
    c: ClientView,
    name: Option<String>,
)
    requires
        old(s)@.clients.get(h) == Some(c),
        call_ensures(
            Service::handle_frontend_request,
            (s, FrontendRequest::UpdateHostname(h, name)),
            (),
        ),
    ensures
        ({
            let a = old(s)@;
            let b = final(s)@;
            let d = ClientView {
                config: ConfigView { hostname: opt_view(name), ..c.config },
                state: StateView {
                    active_addr: None,
                    dns_ips: seq![],
                    ips: c.config.fix_ips.to_set(),
                    ..c.state
                },
            };
            &&& same_but_clients(a, b)
            &&& only(a.clients, b.clients, h)
            &&& opt_view(name) == c.config.hostname ==> b.clients.get(h) == Some(c) && saves(
                a,
                b,
                seq![told(h, c)],
            )
            &&& opt_view(name) != c.config.hostname ==> b.clients.get(h) == Some(d) && saves(
                a,
                b,
                looked_up(h, d) + seq![told(h, d)],
            )
        }),
{
    reveal(ServiceView::update_hostname);
    let a = old(s)@;
    let m = a.update_hostname(h, opt_view(name));
    let d = ClientView {
        config: ConfigView { hostname: opt_view(name), ..c.config },
        state: StateView {
            active_addr: None,
            dns_ips: seq![],
            ips: c.config.fix_ips.to_set(),
            ..c.state
        },
    };
    let acts = if opt_view(name) == c.config.hostname {
        seq![told(h, c)]
    } else {
        looked_up(h, d) + seq![told(h, d)]
    };
    assert(m.actions =~= a.actions + acts);
    lemma_saves_last(a, m, acts);
}

/// A client that gets a port has it, also where it is connected; it is told
/// and kept.
pub proof fn lemma_client_port_is_set(
    s: &mut Service,
    h: ClientHandle,
    c: ClientView,
    port: u16,
)
    requires
        old(s)@.clients.get(h) == Some(c),
        call_ensures(
            Service::handle_frontend_request,
            (s, FrontendRequest::UpdatePort(h, port)),
            (),
        ),
    ensures
        ({
            let a = old(s)@;
            let b = final(s)@;
            &&& same_but_clients(a, b)
            &&& only(a.clients, b.clients, h)
            &&& b.clients.get(h) matches Some(d) && {
                &&& d.config == (ConfigView { port, ..c.config })
                &&& d.state == (StateView { active_addr: d.state.active_addr, ..c.state })
                &&& d.state.active_addr is Some <==> c.state.active_addr is Some
                &&& saves(a, b, seq![told(h, d)])
            }
        }),
{
    let a = old(s)@;
    let m = a.with_clients(a.clients.set_port(h, port));
    let d = m.clients.get(h)->0;
    let n = m.broadcast_client(h);
    assert(m.clients.get(h) is Some);
    assert(n.actions =~= a.actions + seq![told(h, d)]);
    lemma_saves_last(a, n, seq![told(h, d)]);
}

/// The addresses that the user gives a client are known of it, beside those
/// its name resolved to; it is told and kept.
pub proof fn lemma_client_addresses_are_set(
    s: &mut Service,
    h: ClientHandle,
    c: ClientView,
    ips: Vec<IpAddr>,
)
    requires
        old(s)@.clients.get(h) == Some(c),
        call_ensures(
            Service::handle_frontend_request,
            (s, FrontendRequest::UpdateFixIps(h, ips)),
            (),
        ),
    ensures
        ({
            let a = old(s)@;
            let b = final(s)@;
            let d = ClientView {
                config: ConfigView { fix_ips: ips@, ..c.config },
                state: StateView { ips: ips@.to_set() + c.state.dns_ips.to_set(), ..c.state },
            };
            &&& same_but_clients(a, b)
            &&& only(a.clients, b.clients, h)
            &&& b.clients.get(h) == Some(d)
            &&& saves(a, b, seq![told(h, d)])
        }),
{
    reveal(ServiceView::update_fix_ips);
    let a = old(s)@;
    let m = a.update_fix_ips(h, ips@);
    let d = ClientView {
        config: ConfigView { fix_ips: ips@, ..c.config },
        state: StateView { ips: ips@.to_set() + c.state.dns_ips.to_set(), ..c.state },
    };
    assert(m.actions =~= a.actions + seq![told(h, d)]);
    lemma_saves_last(a, m, seq![told(h, d)]);
}

/// The command that the user gives a client is its own, and told.
pub proof fn lemma_client_hook_is_set(
    s: &mut Service,
    h: ClientHandle,
    c: ClientView,
    cmd: Option<String>,
)
    requires
        old(s)@.clients.get(h) == Some(c),
        call_ensures(
            Service::handle_frontend_request,
            (s, FrontendRequest::UpdateEnterHook(h, cmd)),
            (),
        ),
    ensures
        ({
            let a = old(s)@;
            let b = final(s)@;
            let d = ClientView { config: ConfigView { cmd: opt_view(cmd), ..c.config }, ..c };
            &&& same_but_clients(a, b)
            &&& only(a.clients, b.clients, h)
            &&& b.clients.get(h) == Some(d)
            &&& b.actions == a.actions + seq![told(h, d)]
        }),
{
    reveal(ServiceView::update_enter_hook);
    let a = old(s)@;
    let d = ClientView { config: ConfigView { cmd: opt_view(cmd), ..c.config }, ..c };
    assert(final(s)@.actions =~= a.actions + seq![told(h, d)]);
}

/// A client that is not there cannot be changed: the frontends learn that
/// there is none, and everything stays as it is.
pub proof fn lemma_no_such_client(s: &mut Service, h: ClientHandle, r: FrontendRequest)
    requires
        old(s)@.clients.get(h) is None,
        match r {
            FrontendRequest::UpdateHostname(k, _) => k == h,
            FrontendRequest::UpdatePort(k, _) => k == h,
            FrontendRequest::UpdatePosition(k, _) => k == h,
            FrontendRequest::UpdateFixIps(k, _) => k == h,
            FrontendRequest::UpdateEnterHook(k, _) => k == h,
            _ => false,
        },
        call_ensures(Service::handle_frontend_request, (s, r), ()),
    ensures
        ({
            let a = old(s)@;
            let b = final(s)@;
            let none = seq![ActionView::Notify(FrontendEventView::NoSuchClient(h))];
            &&& b == (ServiceView { actions: b.actions, ..a })
            &&& if r is UpdateEnterHook {
                b.actions == a.actions + none
            } else {
                saves(a, b, none)
            }
        }),
{
    reveal(ServiceView::update_hostname);
    reveal(ServiceView::update_pos);
    reveal(ServiceView::update_fix_ips);
    reveal(ServiceView::update_enter_hook);
    let a = old(s)@;
    let none = seq![ActionView::Notify(FrontendEventView::NoSuchClient(h))];
    let m = a.broadcast_client(h);
    assert(m.actions =~= a.actions + none);
    lemma_saves_last(a, m, none);
}

/// A client that is not there cannot be activated: nothing happens but that
/// the configuration is kept.
pub proof fn lemma_nobody_is_activated(s: &mut Service, h: ClientHandle)
    requires
        old(s)@.clients.get(h) is None,
        call_ensures(Service::handle_frontend_request, (s, FrontendRequest::Activate(h, true)), ()),
    ensures
        saves(old(s)@, final(s)@, seq![]),
        final(s)@ == (ServiceView { actions: final(s)@.actions, ..old(s)@ }),
{
    reveal(ServiceView::activate_client);
    let a = old(s)@;
    assert(a.actions =~= a.actions + seq![]);
    lemma_saves_last(a, a, seq![]);
}

} // verus!
