//! What starting up and reading the configuration again come to.

use super::effects::known_ips;
use super::requests::{lemma_activation, switched};
use super::roles::{everything, lemma_active_handles, lemma_sync};
use super::{ActionView, SavedConfig, SavedView, Service, ServiceView};
use crate::capture::{CaptureType, ICaptureEvent};
use crate::client::{
    configured_client, lemma_first_match, lemma_used_keys, slot, used_keys, ClientView,
    ConfigClientView, ManagerView, QueryView,
};
use crate::emulation::EmulationEvent;
use crate::ipc::{ClientHandle, FrontendEventView, FrontendRequest, OperationMode, Status};
use crate::net::lemma_distinct_ips;
use vstd::prelude::*;

verus! {

/// Of a client only whether it is active differs; one that is not there stays
/// away.
pub open spec fn same_but_active(a: Option<ClientView>, b: Option<ClientView>) -> bool {
    match a {
        Some(c) => b matches Some(d) && d == switched(c, d.state.active),
        None => b is None,
    }
}

/// What becomes of a client `k` when `h` is made active: it stays but for
/// whether it is active, becomes active only if it is `h`, and inactive only
/// if it lies at the same edge.
proof fn lemma_activation_keeps(v: ServiceView, h: ClientHandle, c: ClientView, k: ClientHandle)
    requires
        v.clients.slots.len() <= usize::MAX,
        h < v.clients.slots.len(),
        k < v.clients.slots.len(),
        v.clients.get(h) == Some(c),
    ensures
        ({
            let w = v.activate_client(h);
            let e = v.clients.get(k);
            let d = w.clients.get(k);
            &&& w == (ServiceView { clients: w.clients, actions: w.actions, ..v })
            &&& w.clients.slots.len() == v.clients.slots.len()
            &&& w.clients.free == v.clients.free
            &&& w.clients.parked == v.clients.parked
            &&& same_but_active(e, d)
            &&& k == h ==> d == Some(switched(c, true))
            &&& k != h && e is Some && !e->0.state.active ==> d == e
            &&& k != h && e is Some && e->0.config.pos != c.config.pos ==> d == e
        }),
{
    lemma_activation(v, h, c);
    lemma_first_match(v.clients.slots, QueryView::ActiveAt(c.config.pos));
    let o = v.clients.first(QueryView::ActiveAt(c.config.pos));
    if o is Some {
        assert(v.clients.slots[o->0 as int] is Some);
        assert(v.clients.get(o->0) == v.clients.slots[o->0 as int]);
    }
    if k != h && Some(k) != o {
        assert(v.activate_client(h).clients.get(k) == v.clients.get(k));
    }
}

/// What is asked for stays asked for when a client is made active; where it
/// was inactive a server has its barrier put up.
proof fn lemma_activation_asks(v: ServiceView, h: ClientHandle, c: ClientView, a: ActionView)
    requires
        v.clients.slots.len() <= usize::MAX,
        h < v.clients.slots.len(),
        v.clients.get(h) == Some(c),
    ensures
        v.actions.contains(a) ==> v.activate_client(h).actions.contains(a),
        !c.state.active && v.mode == OperationMode::Server ==> v.activate_client(
            h,
        ).actions.contains(ActionView::CaptureCreate(h, c.config.pos, CaptureType::Default)),
{
    lemma_activation(v, h, c);
    let b = v.activate_client(h);
    if v.actions.contains(a) {
        let i = v.actions.index_of(a);
        assert(b.actions[i] == a);
    }
    if !c.state.active && v.mode == OperationMode::Server {
        let pre = super::requests::looked_up(h, c) + super::requests::gives_way(
            v.clients,
            h,
            c.config.pos,
        );
        let i = (v.actions.len() + pre.len()) as int;
        assert(b.actions[i] == ActionView::CaptureCreate(
            h,
            c.config.pos,
            CaptureType::Default,
        ));
    }
}

/// Handles of clients that are there.
pub open spec fn all_there(m: ManagerView, handles: Seq<ClientHandle>) -> bool {
    forall|i: int|
        0 <= i < handles.len() ==> #[trigger] handles[i] < m.slots.len() && m.get(
            handles[i],
        ) is Some
}

/// What becomes of a client `k` when clients are noted as inactive.
proof fn lemma_forgetting(v: ServiceView, handles: Seq<ClientHandle>, k: ClientHandle)
    requires
        v.clients.slots.len() <= usize::MAX,
        all_there(v.clients, handles),
        k < v.clients.slots.len(),
    ensures
        ({
            let w = v.forget_active(handles);
            let e = v.clients.get(k);
            let d = w.clients.get(k);
            &&& w == (ServiceView { clients: w.clients, ..v })
            &&& w.clients.slots.len() == v.clients.slots.len()
            &&& w.clients.free == v.clients.free
            &&& w.clients.parked == v.clients.parked
            &&& same_but_active(e, d)
            &&& handles.contains(k) && e is Some ==> d == Some(switched(e->0, false))
            &&& !handles.contains(k) ==> d == e
        }),
    decreases handles.len(),
{
    if handles.len() > 0 {
        let init = handles.drop_last();
        let h = handles.last();
        assert(handles[handles.len() - 1] == h);
        assert forall|i: int| 0 <= i < init.len() implies #[trigger] init[i]
            < v.clients.slots.len() && v.clients.get(init[i]) is Some by {
            assert(init[i] == handles[i]);
        }
        lemma_forgetting(v, init, k);
        lemma_forgetting(v, init, h);
        let u = v.forget_active(init);
        let w = v.forget_active(handles);
        assert(w.clients == u.clients.set_active(h, false));
        assert(k != h ==> w.clients.get(k) == u.clients.get(k));
        if init.contains(k) {
            assert(handles[init.index_of(k)] == k);
        }
        if handles.contains(k) && k != h {
            assert(init[handles.index_of(k)] == k);
        }
    }
}

/// The handles of clients that are there, each once, and inactive.
pub open spec fn all_inactive(m: ManagerView, handles: Seq<ClientHandle>) -> bool {
    &&& m.slots.len() <= usize::MAX
    &&& handles.no_duplicates()
    &&& all_there(m, handles)
    &&& forall|i: int| 0 <= i < handles.len() ==> !m.get(#[trigger] handles[i])->0.state.active
}

/// The handles but the last, and the last.
proof fn lemma_but_the_last(m: ManagerView, handles: Seq<ClientHandle>)
    requires
        all_inactive(m, handles),
        handles.len() > 0,
    ensures
        all_inactive(m, handles.drop_last()),
        handles.last() < m.slots.len(),
        m.get(handles.last()) is Some,
        !m.get(handles.last())->0.state.active,
        !handles.drop_last().contains(handles.last()),
{
    let init = handles.drop_last();
    let n = (handles.len() - 1) as int;
    assert(handles[n] == handles.last());
    assert forall|i: int| 0 <= i < init.len() implies #[trigger] init[i] < m.slots.len() && m.get(
        init[i],
    ) is Some && !m.get(init[i])->0.state.active by {
        assert(init[i] == handles[i]);
    }
    if init.contains(handles.last()) {
        let i = init.index_of(handles.last());
        assert(handles[i] == handles[n]);
    }
}

/// What becomes of a client `k` when clients that are inactive are made active
/// one by one.
proof fn lemma_activating_keeps(v: ServiceView, handles: Seq<ClientHandle>, k: ClientHandle)
    requires
        all_inactive(v.clients, handles),
        k < v.clients.slots.len(),
        v.clients.get(k) is Some ==> !v.clients.get(k)->0.state.active,
    ensures
        ({
            let w = v.activate_clients(handles);
            let e = v.clients.get(k);
            let d = w.clients.get(k);
            &&& w == (ServiceView { clients: w.clients, actions: w.actions, ..v })
            &&& w.clients.slots.len() == v.clients.slots.len()
            &&& w.clients.free == v.clients.free
            &&& w.clients.parked == v.clients.parked
            &&& same_but_active(e, d)
            &&& !handles.contains(k) ==> d == e
        }),
    decreases handles.len(),
{
    if handles.len() > 0 {
        lemma_but_the_last(v.clients, handles);
        let init = handles.drop_last();
        let h = handles.last();
        lemma_activating_keeps(v, init, k);
        lemma_activating_keeps(v, init, h);
        let u = v.activate_clients(init);
        let c = v.clients.get(h)->0;
        assert(u.clients.get(h) == Some(c));
        lemma_activation_keeps(u, h, c, k);
        if !handles.contains(k) {
            assert(!init.contains(k)) by {
                if init.contains(k) {
                    assert(handles[init.index_of(k)] == k);
                }
            }
            assert(k != h) by {
                assert(handles[handles.len() - 1] == h);
            }
        }
    }
}

/// On a server the barrier of each client that is made active is put up.
proof fn lemma_activating_asks(v: ServiceView, handles: Seq<ClientHandle>, i: int)
    requires
        all_inactive(v.clients, handles),
        0 <= i < handles.len(),
        v.mode == OperationMode::Server,
    ensures
        v.activate_clients(handles).actions.contains(
            ActionView::CaptureCreate(
                handles[i],
                v.clients.get(handles[i])->0.config.pos,
                CaptureType::Default,
            ),
        ),
    decreases handles.len(),
{
    lemma_but_the_last(v.clients, handles);
    let init = handles.drop_last();
    let h = handles.last();
    let u = v.activate_clients(init);
    let c = v.clients.get(h)->0;
    lemma_activating_keeps(v, init, h);
    let a = ActionView::CaptureCreate(
        handles[i],
        v.clients.get(handles[i])->0.config.pos,
        CaptureType::Default,
    );
    if i < init.len() {
        assert(init[i] == handles[i]);
        lemma_activating_asks(v, init, i);
        assert(u.actions.contains(a));
    }
    lemma_activation_asks(u, h, c, a);
}

/// Of the clients that are made active the last one at each edge stays so.
proof fn lemma_activating_last(v: ServiceView, handles: Seq<ClientHandle>, i: int)
    requires
        all_inactive(v.clients, handles),
        0 <= i < handles.len(),
        forall|j: int|
            i < j < handles.len() ==> v.clients.get(#[trigger] handles[j])->0.config.pos
                != v.clients.get(handles[i])->0.config.pos,
    ensures
        v.activate_clients(handles).clients.get(handles[i]) == Some(
            switched(v.clients.get(handles[i])->0, true),
        ),
    decreases handles.len(),
{
    lemma_but_the_last(v.clients, handles);
    let init = handles.drop_last();
    let h = handles.last();
    let n = (handles.len() - 1) as int;
    let u = v.activate_clients(init);
    let c = v.clients.get(h)->0;
    let k = handles[i];
    assert(k < v.clients.slots.len() && v.clients.get(k) is Some);
    lemma_activating_keeps(v, init, h);
    lemma_activation_keeps(u, h, c, k);
    if i < n {
        assert(init[i] == k);
        assert forall|j: int| i < j < init.len() implies v.clients.get(
            #[trigger] init[j],
        )->0.config.pos != v.clients.get(init[i])->0.config.pos by {
            assert(init[j] == handles[j]);
        }
        lemma_activating_last(v, init, i);
        assert(handles[n] == h);
        assert(k != h);
    }
}

/// The active clients are listed each once, and none is missing.
proof fn lemma_active_listed(m: ManagerView)
    requires
        m.slots.len() <= usize::MAX,
    ensures
        m.active_handles().no_duplicates(),
        forall|i: int|
            0 <= i < m.active_handles().len() ==> #[trigger] m.active_handles()[i] < m.slots.len(),
        forall|k: ClientHandle|
            k < m.slots.len() && (m.get(k) matches Some(c) && c.state.active)
                ==> #[trigger] m.active_handles().contains(k),
{
    lemma_used_keys(m.slots);
    let keys = used_keys(m.slots);
    let all = m.handles();
    let p = |h: ClientHandle| m.slots[h as int]->0.state.active;
    let r = all.filter(p);
    assert(r == m.active_handles());
    assert(all.no_duplicates()) by {
        assert forall|i: int, j: int| 0 <= i < all.len() && 0 <= j < all.len() && i != j implies
            all[i] != all[j] by {
            assert(all[i] == keys[i] as u64 && all[j] == keys[j] as u64);
        }
    }
    lemma_filter_distinct(all, p);
    assert forall|i: int| 0 <= i < r.len() implies #[trigger] r[i] < m.slots.len() by {
        assert(r.contains(r[i]));
        all.lemma_filter_contains_rev(p, r[i]);
        let n = all.index_of(r[i]);
        assert(all[n] == keys[n] as u64);
    }
    assert forall|k: ClientHandle|
        k < m.slots.len() && (m.get(k) matches Some(c) && c.state.active) implies #[trigger] r.contains(
    k) by {
        assert(m.slots[k as int] is Some);
        let i = choose|i: int| 0 <= i < keys.len() && keys[i] == k as usize;
        assert(all[i] == k);
        all.lemma_filter_contains(p, i);
    }
}

/// What is picked from a list without repetitions has none.
proof fn lemma_filter_distinct(s: Seq<ClientHandle>, p: spec_fn(ClientHandle) -> bool)
    requires
        s.no_duplicates(),
    ensures
        s.filter(p).no_duplicates(),
    decreases s.len(),
{
    reveal(Seq::filter);
    if s.len() > 0 {
        let init = s.drop_last();
        lemma_filter_distinct(init, p);
        if p(s.last()) {
            let f = init.filter(p);
            assert(!f.contains(s.last())) by {
                if f.contains(s.last()) {
                    init.lemma_filter_contains_rev(p, s.last());
                    let i = init.index_of(s.last());
                    assert(s[i] == s[s.len() - 1]);
                }
            }
        }
    }
}

/// When the service starts, every client that is to be active is made active,
/// in the order of the handles: a server puts up its barrier at its edge, and
/// the last one at each edge stays active. A client's server is looked up. No
/// client comes, goes or changes otherwise.
pub proof fn lemma_service_starts(s: &mut Service, h: ClientHandle)
    requires
        old(s)@.clients.slots.len() <= usize::MAX,
        h < old(s)@.clients.slots.len(),
        call_ensures(Service::startup, (s,), ()),
    ensures
        ({
            let a = old(s)@;
            let b = final(s)@;
            let c = a.clients.get(h);
            &&& b == (ServiceView { clients: b.clients, actions: b.actions, ..a })
            &&& b.clients.slots.len() == a.clients.slots.len()
            &&& b.clients.free == a.clients.free
            &&& b.clients.parked == a.clients.parked
            &&& same_but_active(c, b.clients.get(h))
            &&& c is Some && !c->0.state.active ==> b.clients.get(h) == c
            &&& c is Some && c->0.state.active && a.mode == OperationMode::Server
                ==> b.actions.contains(
                ActionView::CaptureCreate(h, c->0.config.pos, CaptureType::Default),
            )
            &&& c is Some && c->0.state.active && (forall|k: ClientHandle|
                h < k < a.clients.slots.len() && (#[trigger] a.clients.get(k)) is Some
                    && a.clients.get(k)->0.state.active ==> a.clients.get(k)->0.config.pos
                    != c->0.config.pos) ==> b.clients.get(h) == c
            &&& a.mode == OperationMode::Client && a.endpoint.hostname is Some ==> b.actions.last()
                == ActionView::Resolve(0xffff_ffff_ffff_ffff, a.endpoint.hostname->0)
        }),
{
    let a = old(s)@;
    let b = final(s)@;
    let active = a.clients.active_handles();
    lemma_active_listed(a.clients);
    lemma_active_there(a.clients);
    lemma_forgetting(a, active, h);
    let mid = a.forget_active(active);
    assert forall|i: int| 0 <= i < active.len() implies #[trigger] active[i]
        < mid.clients.slots.len() && mid.clients.get(active[i]) is Some
        && !mid.clients.get(active[i])->0.state.active by {
        lemma_forgetting(a, active, active[i]);
        assert(active.contains(active[i]));
    }
    assert(all_inactive(mid.clients, active));
    lemma_activating_keeps(mid, active, h);
    let w = mid.activate_clients(active);
    assert(b.clients == w.clients);
    let c = a.clients.get(h);
    if c is Some && c->0.state.active {
        assert(active.contains(h));
        let i = active.index_of(h);
        assert(active[i] == h);
        if a.mode == OperationMode::Server {
            lemma_activating_asks(mid, active, i);
        }
        if forall|k: ClientHandle|
            h < k < a.clients.slots.len() && (#[trigger] a.clients.get(k)) is Some
                && a.clients.get(k)->0.state.active ==> a.clients.get(k)->0.config.pos
                != c->0.config.pos {
            lemma_active_ascend(a.clients);
            assert forall|j: int| i < j < active.len() implies mid.clients.get(
                #[trigger] active[j],
            )->0.config.pos != mid.clients.get(active[i])->0.config.pos by {
                assert(active[i] < active[j]);
                lemma_forgetting(a, active, active[j]);
                assert(a.clients.get(active[j]) is Some);
            }
            lemma_activating_last(mid, active, i);
            assert(switched(switched(c->0, false), true) == c->0);
        }
    }
}

/// The active clients are there, and active.
proof fn lemma_active_there(m: ManagerView)
    requires
        m.slots.len() <= usize::MAX,
    ensures
        all_there(m, m.active_handles()),
        forall|i: int|
            0 <= i < m.active_handles().len() ==> m.get(
                #[trigger] m.active_handles()[i],
            )->0.state.active,
        forall|k: ClientHandle|
            k < m.slots.len() && #[trigger] m.active_handles().contains(k) ==> m.get(k) is Some
                && m.get(k)->0.state.active,
{
    lemma_active_listed(m);
    let active = m.active_handles();
    assert forall|i: int| 0 <= i < active.len() implies #[trigger] active[i] < m.slots.len()
        && m.get(active[i]) is Some && m.get(active[i])->0.state.active by {
        lemma_active_handles(m, i);
    }
    assert forall|k: ClientHandle| k < m.slots.len() && #[trigger] active.contains(k) implies m.get(
        k,
    ) is Some && m.get(k)->0.state.active by {
        let i = active.index_of(k);
        assert(active[i] == k);
    }
}

/// The active clients are listed in ascending order.
proof fn lemma_active_ascend(m: ManagerView)
    requires
        m.slots.len() <= usize::MAX,
    ensures
        forall|i: int, j: int|
            0 <= i < j < m.active_handles().len() ==> m.active_handles()[i] < m.active_handles()[j],
{
    lemma_used_keys(m.slots);
    let keys = used_keys(m.slots);
    let all = m.handles();
    let p = |h: ClientHandle| m.slots[h as int]->0.state.active;
    assert(all.filter(p) == m.active_handles());
    assert forall|i: int, j: int| 0 <= i < j < all.len() implies all[i] < all[j] by {
        assert(all[i] == keys[i] as u64 && all[j] == keys[j] as u64);
    }
    lemma_filter_ascends(all, p);
}

/// What is picked from an ascending list ascends.
proof fn lemma_filter_ascends(s: Seq<ClientHandle>, p: spec_fn(ClientHandle) -> bool)
    requires
        forall|i: int, j: int| 0 <= i < j < s.len() ==> s[i] < s[j],
    ensures
        forall|i: int, j: int| 0 <= i < j < s.filter(p).len() ==> s.filter(p)[i] < s.filter(p)[j],
    decreases s.len(),
{
    reveal(Seq::filter);
    if s.len() > 0 {
        let init = s.drop_last();
        lemma_filter_ascends(init, p);
        let f = init.filter(p);
        assert forall|i: int| 0 <= i < f.len() implies #[trigger] f[i] < s.last() by {
            assert(f.contains(f[i]));
            init.lemma_filter_contains_rev(p, f[i]);
            let k = init.index_of(f[i]);
            assert(s[k] < s[s.len() - 1]);
        }
    }
}

/// What is asked for stays asked for: `a` is a beginning of `b`.
pub open spec fn goes_on(a: Seq<ActionView>, b: Seq<ActionView>) -> bool {
    a.len() <= b.len() && b.take(a.len() as int) == a
}

/// What goes on holds all that was there.
proof fn lemma_goes_on(a: Seq<ActionView>, b: Seq<ActionView>, x: ActionView)
    requires
        goes_on(a, b),
        a.contains(x),
    ensures
        b.contains(x),
{
    let i = a.index_of(x);
    assert(b.take(a.len() as int)[i] == b[i]);
}

/// What goes on twice goes on.
proof fn lemma_goes_on_further(a: Seq<ActionView>, b: Seq<ActionView>, c: Seq<ActionView>)
    requires
        goes_on(a, b),
        goes_on(b, c),
    ensures
        goes_on(a, c),
{
    assert(c.take(a.len() as int) =~= a) by {
        assert forall|i: int| 0 <= i < a.len() implies c[i] == a[i] by {
            assert(c.take(b.len() as int)[i] == c[i]);
            assert(b.take(a.len() as int)[i] == b[i]);
        }
    }
}

/// A client of the configuration file stands under a handle: as the file has
/// it, told of, and, where it is active on a server, with its barrier put up.
pub open spec fn loaded(w: ServiceView, c: ConfigClientView, h: ClientHandle) -> bool {
    &&& h < w.clients.slots.len()
    &&& w.clients.get(h) matches Some(d) && {
        &&& d.config.hostname == c.hostname
        &&& d.config.port == c.port
        &&& d.config.pos == c.pos
        &&& d.config.cmd == c.enter_hook
        &&& d.config.fingerprint == c.fingerprint
        &&& d.config.fix_ips.to_set() == c.ips.to_set()
        &&& d.state.ips == c.ips.to_set()
        &&& d.state.active ==> c.active
        &&& w.actions.contains(
            ActionView::Notify(
                FrontendEventView::Created(h, d.config, switched(d, c.active).state),
            ),
        )
    }
    &&& c.active && w.mode == OperationMode::Server ==> w.actions.contains(
        ActionView::CaptureCreate(h, c.pos, CaptureType::Default),
    )
}

/// What loading one client comes to.
proof fn lemma_loading(v: ServiceView, c: ConfigClientView, k: ClientHandle)
    requires
        v.clients.wf(),
        v.clients.room(1),
    ensures
        ({
            let w = v.load_client(c);
            let h = v.clients.next_handle();
            &&& w == (ServiceView { clients: w.clients, actions: w.actions, ..v })
            &&& w.clients.wf()
            &&& w.clients.count() == v.clients.count() + 1
            &&& w.clients.parked == v.clients.parked
            &&& v.clients.slots.len() <= w.clients.slots.len()
            &&& goes_on(v.actions, w.actions)
            &&& loaded(w, c, h)
            &&& c.active ==> w.clients.get(h)->0.state.active
            &&& v.clients.get(h) is None
            &&& k < v.clients.slots.len() && k != h ==> same_but_active(
                v.clients.get(k),
                w.clients.get(k),
            ) && (v.clients.get(k) is Some && (!v.clients.get(k)->0.state.active
                || !c.active || v.clients.get(k)->0.config.pos != c.pos) ==> w.clients.get(k)
                == v.clients.get(k))
        }),
{
    let w = v.load_client(c);
    let h = v.clients.next_handle();
    let d = configured_client(c);
    lemma_distinct_ips(c.ips);
    v.clients.lemma_insert(d);
    let full = v.with_clients(v.clients.insert(d));
    let created = FrontendEventView::Created(h, d.config, d.state);
    assert(h < full.clients.slots.len());
    if k < v.clients.slots.len() && k != h {
        assert(slot(k) != slot(h));
        assert(full.clients.get(k) == v.clients.get(k));
    }
    if c.active {
        full.clients.lemma_set_active_wf(h, false);
        full.clients.lemma_set_active_count(h, false);
        let off = full.with_clients(full.clients.set_active(h, false));
        let e = switched(d, false);
        assert(off.clients.get(h) == Some(e));
        assert(off.clients.slots.len() == full.clients.slots.len());
        if k < v.clients.slots.len() && k != h {
            assert(off.clients.get(k) == v.clients.get(k));
            lemma_activation_keeps(off, h, e, k);
        }
        lemma_activation(off, h, e);
        off.lemma_activate_frame(h);
        off.lemma_activated_wf(h);
        lemma_activation_asks(off, h, e, ActionView::Notify(created));
        let on = off.activate_client(h);
        assert(w == on.notify(created));
        assert(switched(e, true) == d);
        assert(w.actions[on.actions.len() as int] == ActionView::Notify(created));
        assert(w.actions.take(v.actions.len() as int) =~= v.actions);
        if v.mode == OperationMode::Server {
            let a = ActionView::CaptureCreate(h, c.pos, CaptureType::Default);
            let i = on.actions.index_of(a);
            assert(on.actions.contains(a));
            assert(w.actions[i] == a);
        }
    } else {
        assert(w == full.notify(created));
        assert(w.actions[v.actions.len() as int] == ActionView::Notify(created));
        assert(w.actions.take(v.actions.len() as int) =~= v.actions);
    }
}

/// A client that was loaded is still there after another was.
proof fn lemma_stays_loaded(
    v: ServiceView,
    c: ConfigClientView,
    h: ClientHandle,
    next: ConfigClientView,
)
    requires
        v.clients.wf(),
        v.clients.room(1),
        loaded(v, c, h),
    ensures
        loaded(v.load_client(next), c, h),
{
    lemma_loading(v, next, h);
    let w = v.load_client(next);
    let d = v.clients.get(h)->0;
    lemma_goes_on(
        v.actions,
        w.actions,
        ActionView::Notify(FrontendEventView::Created(h, d.config, switched(d, c.active).state)),
    );
    let e = w.clients.get(h)->0;
    assert(switched(e, c.active) == switched(d, c.active));
    if c.active && v.mode == OperationMode::Server {
        lemma_goes_on(
            v.actions,
            w.actions,
            ActionView::CaptureCreate(h, c.pos, CaptureType::Default),
        );
    }
}

/// What loading all clients of a file comes to.
proof fn lemma_loading_all(v: ServiceView, clients: Seq<ConfigClientView>, i: int)
    requires
        v.clients.wf(),
        v.clients.room(clients.len()),
    ensures
        ({
            let w = v.load_clients(clients);
            &&& w == (ServiceView { clients: w.clients, actions: w.actions, ..v })
            &&& w.clients.wf()
            &&& w.clients.count() == v.clients.count() + clients.len()
            &&& w.clients.parked == v.clients.parked
            &&& goes_on(v.actions, w.actions)
            &&& 0 <= i < clients.len() ==> exists|h: ClientHandle| loaded(w, clients[i], h)
        }),
    decreases clients.len(),
{
    if clients.len() > 0 {
        let init = clients.drop_last();
        lemma_loading_all(v, init, i);
        let u = v.load_clients(init);
        lemma_loading(u, clients.last(), 0);
        let w = v.load_clients(clients);
        lemma_goes_on_further(v.actions, u.actions, w.actions);
        if 0 <= i < init.len() {
            assert(init[i] == clients[i]);
            let h = choose|h: ClientHandle| loaded(u, init[i], h);
            lemma_stays_loaded(u, init[i], h, clients.last());
            assert(loaded(w, clients[i], h));
        } else if i == init.len() {
            assert(loaded(w, clients[i], u.clients.next_handle()));
        }
    } else {
        assert(v.actions.take(v.actions.len() as int) =~= v.actions);
    }
}

/// Of the clients of a file that are to be active, the last one at each edge
/// is.
proof fn lemma_last_loaded_is_active(v: ServiceView, clients: Seq<ConfigClientView>, i: int)
    requires
        v.clients.wf(),
        v.clients.room(clients.len()),
        0 <= i < clients.len(),
        clients[i].active,
        forall|j: int|
            i < j < clients.len() ==> !(#[trigger] clients[j]).active || clients[j].pos
                != clients[i].pos,
    ensures
        ({
            let w = v.load_clients(clients);
            exists|h: ClientHandle|
                #[trigger] loaded(w, clients[i], h) && w.clients.get(h)->0.state.active
        }),
    decreases clients.len(),
{
    let init = clients.drop_last();
    let last = clients.last();
    let n = (clients.len() - 1) as int;
    assert(clients[n] == last);
    lemma_loading_all(v, init, 0);
    let u = v.load_clients(init);
    let w = v.load_clients(clients);
    if i < n {
        assert(init[i] == clients[i]);
        assert forall|j: int| i < j < init.len() implies !(#[trigger] init[j]).active || init[j].pos
            != init[i].pos by {
            assert(init[j] == clients[j]);
        }
        lemma_last_loaded_is_active(v, init, i);
        let h = choose|h: ClientHandle|
            #[trigger] loaded(u, init[i], h) && u.clients.get(h)->0.state.active;
        lemma_stays_loaded(u, init[i], h, last);
        lemma_loading(u, last, h);
        assert(!clients[n].active || clients[n].pos != clients[i].pos);
        assert(w.clients.get(h) == u.clients.get(h));
        assert(loaded(w, clients[i], h));
    } else {
        lemma_loading(u, last, 0);
        assert(loaded(w, clients[i], u.clients.next_handle()));
    }
}

/// What removing clients comes to, of a client `k`.
proof fn lemma_removing(v: ServiceView, handles: Seq<ClientHandle>, k: ClientHandle)
    requires
        v.clients.slots.len() <= usize::MAX,
        handles.no_duplicates(),
        all_there(v.clients, handles),
        k < v.clients.slots.len(),
    ensures
        ({
            let w = v.remove_clients(handles);
            &&& w.clients.slots.len() == v.clients.slots.len()
            &&& w.clients.parked == v.clients.parked
            &&& goes_on(v.actions, w.actions)
            &&& !handles.contains(k) ==> w.clients.get(k) == v.clients.get(k)
            &&& handles.contains(k) ==> w.actions.contains(
                ActionView::Notify(FrontendEventView::Deleted(k)),
            )
            &&& handles.contains(k) && v.clients.get(k)->0.state.active ==> w.actions.contains(
                ActionView::CaptureDestroy(k),
            )
        }),
    decreases handles.len(),
{
    reveal(ServiceView::remove_client);
    if handles.len() > 0 {
        let init = handles.drop_last();
        let h = handles.last();
        let n = (handles.len() - 1) as int;
        assert(handles[n] == h);
        assert forall|i: int| 0 <= i < init.len() implies #[trigger] init[i]
            < v.clients.slots.len() && v.clients.get(init[i]) is Some by {
            assert(init[i] == handles[i]);
        }
        assert(!init.contains(h)) by {
            if init.contains(h) {
                assert(handles[init.index_of(h)] == handles[n]);
            }
        }
        lemma_removing(v, init, k);
        lemma_removing(v, init, h);
        let u = v.remove_clients(init);
        let w = v.remove_clients(handles);
        assert(u.clients.get(h) == v.clients.get(h));
        assert(goes_on(u.actions, w.actions)) by {
            assert(w.actions.take(u.actions.len() as int) =~= u.actions);
        }
        lemma_goes_on_further(v.actions, u.actions, w.actions);
        assert(w.actions.last() == ActionView::Notify(FrontendEventView::Deleted(h)));
        assert(w.actions.contains(w.actions.last()));
        if v.clients.get(h)->0.state.active {
            assert(w.actions[u.actions.len() as int] == ActionView::CaptureDestroy(h));
        }
        if handles.contains(k) && k != h {
            assert(init[handles.index_of(k)] == k);
            lemma_goes_on(
                u.actions,
                w.actions,
                ActionView::Notify(FrontendEventView::Deleted(k)),
            );
            if v.clients.get(k)->0.state.active {
                lemma_goes_on(u.actions, w.actions, ActionView::CaptureDestroy(k));
            }
        }
        if init.contains(k) {
            assert(handles[init.index_of(k)] == k);
        }
    } else {
        assert(v.actions.take(v.actions.len() as int) =~= v.actions);
    }
}

/// All clients are there, each once.
proof fn lemma_handles_there(m: ManagerView)
    requires
        m.slots.len() <= usize::MAX,
    ensures
        m.handles().no_duplicates(),
        all_there(m, m.handles()),
        forall|k: ClientHandle|
            k < m.slots.len() && m.get(k) is Some ==> #[trigger] m.handles().contains(k),
{
    lemma_used_keys(m.slots);
    let keys = used_keys(m.slots);
    let all = m.handles();
    assert forall|i: int, j: int| 0 <= i < all.len() && 0 <= j < all.len() && i != j implies all[i]
        != all[j] by {
        assert(all[i] == keys[i] as u64 && all[j] == keys[j] as u64);
    }
    assert forall|i: int| 0 <= i < all.len() implies #[trigger] all[i] < m.slots.len() && m.get(
        all[i],
    ) is Some by {
        assert(all[i] == keys[i] as u64);
    }
    assert forall|k: ClientHandle|
        k < m.slots.len() && m.get(k) is Some implies #[trigger] all.contains(k) by {
        assert(m.slots[k as int] is Some);
        let i = choose|i: int| 0 <= i < keys.len() && keys[i] == k as usize;
        assert(all[i] == k);
    }
}

/// The role of a configuration file, named or not.
pub open spec fn role_of(new: SavedView) -> OperationMode {
    match new.mode {
        Some(mode) => mode,
        None => if new.clients.len() > 0 {
            OperationMode::Server
        } else if new.endpoint.hostname is Some || new.endpoint.ips.len() > 0 {
            OperationMode::Client
        } else {
            OperationMode::Unconfigured
        },
    }
}

/// The state in which the clients are replaced: the settings of the file are
/// there, and the role was changed over to and told, where it is another.
pub open spec fn changed_over(v: ServiceView, new: SavedView) -> ServiceView {
    let read = ServiceView {
        configured: new.mode,
        audio: new.audio,
        endpoint: new.endpoint,
        ..v
    };
    if role_of(new) == v.mode {
        read
    } else {
        let w = read.apply_operation_mode(role_of(new));
        ServiceView {
            actions: w.actions.push(
                ActionView::Notify(FrontendEventView::OperationMode(role_of(new))),
            ),
            ..w
        }
    }
}

/// The clients of the file are there instead of those that were.
spec fn replaced(v: ServiceView, clients: Seq<ConfigClientView>) -> ServiceView {
    v.remove_clients(v.clients.handles()).load_clients(clients)
}

/// What replacing the clients comes to.
proof fn lemma_replacing(v: ServiceView, clients: Seq<ConfigClientView>, k: ClientHandle, i: int)
    requires
        v.clients.wf(),
        clients.len() <= crate::client::MAX_CLIENTS,
    ensures
        ({
            let w = replaced(v, clients);
            let there = k < v.clients.slots.len() && v.clients.get(k) is Some;
            &&& w == (ServiceView { clients: w.clients, actions: w.actions, ..v })
            &&& goes_on(v.actions, w.actions)
            &&& w.clients.count() == clients.len()
            &&& there ==> w.actions.contains(ActionView::Notify(FrontendEventView::Deleted(k)))
            &&& there && v.clients.get(k)->0.state.active ==> w.actions.contains(
                ActionView::CaptureDestroy(k),
            )
            &&& 0 <= i < clients.len() ==> exists|h: ClientHandle| loaded(w, clients[i], h)
        }),
{
    let handles = v.clients.handles();
    let u = v.remove_clients(handles);
    let w = replaced(v, clients);
    lemma_handles_there(v.clients);
    v.lemma_remove_clients_frame(handles);
    v.lemma_remove_all_clients();
    lemma_loading_all(u, clients, i);
    assert(goes_on(v.actions, u.actions)) by {
        if v.clients.slots.len() > 0 {
            lemma_removing(v, handles, 0);
        } else {
            assert(handles.len() == 0) by {
                if handles.len() > 0 {
                    assert(handles[0] < v.clients.slots.len());
                }
            }
            assert(v.actions.take(v.actions.len() as int) =~= v.actions);
        }
    }
    lemma_goes_on_further(v.actions, u.actions, w.actions);
    if k < v.clients.slots.len() && v.clients.get(k) is Some {
        lemma_removing(v, handles, k);
        lemma_goes_on(u.actions, w.actions, ActionView::Notify(FrontendEventView::Deleted(k)));
        if v.clients.get(k)->0.state.active {
            lemma_goes_on(u.actions, w.actions, ActionView::CaptureDestroy(k));
        }
    }
}

/// What follows once the clients were replaced.
spec fn closing(v: ServiceView, keys: Map<Seq<char>, Seq<char>>, bind: Seq<u32>) -> ServiceView {
    dialed(ServiceView { keys, ..v.emit(ActionView::SetReleaseBind(bind)) }).sync_frontend()
}

/// What follows once the clients were replaced comes to this.
proof fn lemma_closing(v: ServiceView, keys: Map<Seq<char>, Seq<char>>, bind: Seq<u32>)
    ensures
        ({
            let b = closing(v, keys, bind);
            let n = b.actions.len() as int;
            &&& b == (ServiceView {
                keys,
                server_dns_ips: if v.mode == OperationMode::Client {
                    seq![]
                } else {
                    v.server_dns_ips
                },
                actions: b.actions,
                ..v
            })
            &&& goes_on(v.actions, b.actions)
            &&& b.actions.contains(ActionView::SetReleaseBind(bind))
            &&& v.mode == OperationMode::Client && v.endpoint.hostname is Some
                ==> b.actions.contains(
                ActionView::Resolve(0xffff_ffff_ffff_ffff, v.endpoint.hostname->0),
            )
            &&& v.mode == OperationMode::Client && v.emulation_status == Status::Enabled
                && v.endpoint.ips.len() > 0 ==> n >= 10 && (b.actions[n - 10] matches
                ActionView::SetServer(Some(t)) && t.port == v.endpoint.port && known_ips(b, t.ips))
            &&& n >= 9 && b.actions.skip(n - 9) == everything(b)
        }),
{
    let m = ServiceView { keys, ..v.emit(ActionView::SetReleaseBind(bind)) };
    assert(m.actions.last() == ActionView::SetReleaseBind(bind));
    assert(m.actions.contains(m.actions.last()));
    assert(m.actions.take(v.actions.len() as int) =~= v.actions);
    lemma_dialing(m);
    let d = dialed(m);
    lemma_goes_on_further(v.actions, m.actions, d.actions);
    lemma_goes_on(m.actions, d.actions, ActionView::SetReleaseBind(bind));
    lemma_sync(d);
    let b = closing(v, keys, bind);
    let n = b.actions.len() as int;
    assert(b.actions.take(d.actions.len() as int) =~= d.actions);
    lemma_goes_on(d.actions, b.actions, ActionView::SetReleaseBind(bind));
    lemma_goes_on_further(v.actions, d.actions, b.actions);
    assert(everything(d) == everything(b));
    assert(b.actions.skip(n - 9) =~= everything(b));
    if v.mode == OperationMode::Client && v.endpoint.hostname is Some {
        lemma_goes_on(
            d.actions,
            b.actions,
            ActionView::Resolve(0xffff_ffff_ffff_ffff, v.endpoint.hostname->0),
        );
    }
    if v.mode == OperationMode::Client && v.emulation_status == Status::Enabled
        && v.endpoint.ips.len() > 0 {
        assert(b.actions[n - 10] == d.actions.last());
    }
}

/// What is read of a file, in its parts.
proof fn lemma_reading(v: ServiceView, new: SavedView, bind: Seq<u32>)
    ensures
        ({
            let c = changed_over(v, new);
            &&& v.config_change(new, bind) == closing(replaced(c, new.clients), new.keys, bind)
            &&& c == (ServiceView {
                mode: role_of(new),
                configured: new.mode,
                audio: new.audio,
                endpoint: new.endpoint,
                incoming: c.incoming,
                actions: c.actions,
                ..v
            })
        }),
{
    v.read(new).lemma_mode_frame(role_of(new));
    assert(new.role() == role_of(new));
}

/// A configuration file that changed is read in full. Its settings and role
/// are taken over, the keys that release the capture are set, and a client
/// looks its server up anew. In the end the frontends learn of everything.
pub proof fn lemma_configuration_is_read(s: &mut Service, new: SavedConfig, bind: Vec<u32>)
    requires
        old(s)@.clients.wf(),
        new.clients@.len() <= crate::client::MAX_CLIENTS,
        call_ensures(Service::handle_config_change, (s, new, bind), ()),
    ensures
        ({
            let a = old(s)@;
            let b = final(s)@;
            let c = changed_over(a, new@);
            let n = b.actions.len() as int;
            &&& b == (ServiceView {
                mode: role_of(new@),
                configured: new.mode,
                audio: new.audio@,
                endpoint: new.endpoint@,
                keys: new@.keys,
                clients: b.clients,
                incoming: c.incoming,
                server_dns_ips: if role_of(new@) == OperationMode::Client {
                    seq![]
                } else {
                    a.server_dns_ips
                },
                actions: b.actions,
                ..a
            })
            &&& goes_on(c.actions, b.actions)
            &&& b.clients.count() == new.clients@.len()
            &&& b.actions.contains(ActionView::SetReleaseBind(bind@))
            &&& role_of(new@) == OperationMode::Client && new.endpoint.hostname is Some
                ==> b.actions.contains(
                ActionView::Resolve(0xffff_ffff_ffff_ffff, new.endpoint.hostname->0@),
            )
            &&& role_of(new@) == OperationMode::Client && a.emulation_status == Status::Enabled
                && new.endpoint.ips@.len() > 0 ==> n >= 10 && (b.actions[n - 10] matches
                ActionView::SetServer(Some(t)) && t.port == new.endpoint.port && known_ips(
                b,
                t.ips,
            ))
            &&& n >= 9 && b.actions.skip(n - 9) == everything(b)
        }),
{
    let a = old(s)@;
    let c = changed_over(a, new@);
    lemma_reading(a, new@, bind@);
    assert(new@.clients.len() == new.clients@.len());
    lemma_replacing(c, new@.clients, 0, 0);
    let w = replaced(c, new@.clients);
    lemma_closing(w, new@.keys, bind@);
    lemma_goes_on_further(c.actions, w.actions, final(s)@.actions);
}

/// When the configuration is read, every client that was there goes, with its
/// barrier where it was active, and every client of the file comes, as the
/// file has it.
pub proof fn lemma_clients_are_replaced(
    s: &mut Service,
    new: SavedConfig,
    bind: Vec<u32>,
    k: ClientHandle,
    i: int,
)
    requires
        old(s)@.clients.wf(),
        new.clients@.len() <= crate::client::MAX_CLIENTS,
        call_ensures(Service::handle_config_change, (s, new, bind), ()),
    ensures
        ({
            let a = old(s)@;
            let b = final(s)@;
            let there = k < a.clients.slots.len() && a.clients.get(k) is Some;
            &&& there ==> b.actions.contains(ActionView::Notify(FrontendEventView::Deleted(k)))
            &&& there && a.clients.get(k)->0.state.active ==> b.actions.contains(
                ActionView::CaptureDestroy(k),
            )
            &&& 0 <= i < new.clients@.len() ==> exists|h: ClientHandle|
                loaded(b, new.clients@[i]@, h)
        }),
{
    let a = old(s)@;
    let b = final(s)@;
    let c = changed_over(a, new@);
    lemma_reading(a, new@, bind@);
    assert(new@.clients.len() == new.clients@.len());
    lemma_replacing(c, new@.clients, k, i);
    let w = replaced(c, new@.clients);
    lemma_closing(w, new@.keys, bind@);
    if k < a.clients.slots.len() && a.clients.get(k) is Some {
        lemma_goes_on(w.actions, b.actions, ActionView::Notify(FrontendEventView::Deleted(k)));
        if a.clients.get(k)->0.state.active {
            lemma_goes_on(w.actions, b.actions, ActionView::CaptureDestroy(k));
        }
    }
    if 0 <= i < new.clients@.len() {
        let h = choose|h: ClientHandle| loaded(w, new@.clients[i], h);
        lemma_still_loaded(w, b, new@.clients[i], h);
        assert(loaded(b, new.clients@[i]@, h));
    }
}

/// A client that was loaded is so in a state that goes on.
proof fn lemma_still_loaded(v: ServiceView, w: ServiceView, c: ConfigClientView, h: ClientHandle)
    requires
        loaded(v, c, h),
        w.clients == v.clients,
        w.mode == v.mode,
        goes_on(v.actions, w.actions),
    ensures
        loaded(w, c, h),
{
    let d = v.clients.get(h)->0;
    lemma_goes_on(
        v.actions,
        w.actions,
        ActionView::Notify(FrontendEventView::Created(h, d.config, switched(d, c.active).state)),
    );
    if c.active && v.mode == OperationMode::Server {
        lemma_goes_on(
            v.actions,
            w.actions,
            ActionView::CaptureCreate(h, c.pos, CaptureType::Default),
        );
    }
}

/// A client looks its server up anew, and dials it where it can.
spec fn dialed(v: ServiceView) -> ServiceView {
    if v.mode == OperationMode::Client {
        ServiceView { server_dns_ips: seq![], ..v }.resolve_server().push_server_target()
    } else {
        v
    }
}

/// What looking the server up anew comes to.
proof fn lemma_dialing(v: ServiceView)
    ensures
        ({
            let w = dialed(v);
            &&& w == (ServiceView {
                server_dns_ips: if v.mode == OperationMode::Client {
                    seq![]
                } else {
                    v.server_dns_ips
                },
                actions: w.actions,
                ..v
            })
            &&& goes_on(v.actions, w.actions)
            &&& v.mode == OperationMode::Client && v.endpoint.hostname is Some
                ==> w.actions.contains(
                ActionView::Resolve(0xffff_ffff_ffff_ffff, v.endpoint.hostname->0),
            )
            &&& v.mode == OperationMode::Client && v.emulation_status == Status::Enabled
                && v.endpoint.ips.len() > 0 ==> w.actions.len() > 0 && (w.actions.last() matches
                ActionView::SetServer(Some(t)) && t.port == v.endpoint.port && known_ips(w, t.ips))
        }),
{
    reveal(ServiceView::push_server_target);
    let w = dialed(v);
    let e = ServiceView { server_dns_ips: seq![], ..v };
    super::effects::lemma_server_ips(e);
    let r = e.resolve_server();
    assert(r.server_ips() == e.server_ips());
    assert(w.actions.take(v.actions.len() as int) =~= v.actions);
    if v.mode == OperationMode::Client && v.endpoint.hostname is Some {
        assert(w.actions[v.actions.len() as int] == ActionView::Resolve(
            0xffff_ffff_ffff_ffff,
            v.endpoint.hostname->0,
        ));
    }
}

/// There is room for a request, or for an event, unless it adds a client and
/// there are as many as there can be; there is a barrier for a device that
/// enters unless all were given out.
pub proof fn lemma_room_is_known(
    s: &Service,
    r: &FrontendRequest,
    e: &ICaptureEvent,
    d: &EmulationEvent,
    for_request: bool,
    for_event: bool,
    for_device: bool,
)
    requires
        call_ensures(Service::has_room_for_request, (s, r), for_request),
        call_ensures(Service::has_room_for_event, (s, e), for_event),
        call_ensures(Service::has_barrier_for, (s, d), for_device),
    ensures
        s@.clients.room(1) ==> for_request && for_event,
        !s@.clients.room(1) && (r is Create || r is CreateConfigured) ==> !for_request,
        !(r is Create || r is CreateConfigured || r is AssignPosition) ==> for_request,
        !s@.clients.room(1) ==> (*r matches FrontendRequest::AssignPosition { fingerprint, .. }
            ==> for_request == (s@.clients.first(QueryView::Fingerprint(fingerprint@)) is Some)),
        !(e is DeviceConnected) || s@.mode != OperationMode::Server ==> for_event,
        !s@.clients.room(1) && s@.mode == OperationMode::Server ==> (*e matches
            ICaptureEvent::DeviceConnected { fingerprint, .. } ==> for_event == (
        s@.clients.first(QueryView::Fingerprint(fingerprint@)) is Some
            || s@.clients.first_free_position() is None)),
        s@.next_trigger < 0x8000_0000_0000_0000 ==> for_device,
        !(d is Entered) || s@.mode != OperationMode::Client ==> for_device,
{
}

/// A service begins with what its file holds: its settings and role, and its
/// clients in order, as the file has them, whether active or not; nothing runs
/// and nothing is to be done.
pub proof fn lemma_service_begins(
    config: SavedConfig,
    port: u16,
    fingerprint: String,
    s: Service,
    i: int,
)
    requires
        call_ensures(Service::new, (config, port, fingerprint), s),
    ensures
        s@.mode == role_of(config@),
        s@.configured == config.mode,
        s@.port == port,
        s@.audio == config.audio@,
        s@.endpoint == config.endpoint@,
        s@.keys == config@.keys,
        s@.fingerprint == fingerprint@,
        s@.capture_status == Status::Disabled && s@.emulation_status == Status::Disabled,
        s@.incoming.len() == 0 && s@.server_dns_ips.len() == 0,
        s@.next_trigger == 0 && s@.actions.len() == 0,
        s@.clients.parked == Map::<Seq<char>, crate::net::SocketAddr>::empty(),
        s@.clients.slots.len() == config.clients@.len(),
        s@.clients.free.len() == 0,
        0 <= i < config.clients@.len() ==> {
            let c = config.clients@[i]@;
            s@.clients.slots[i] matches Some(d) && {
                &&& d.config.hostname == c.hostname
                &&& d.config.port == c.port
                &&& d.config.pos == c.pos
                &&& d.config.cmd == c.enter_hook
                &&& d.config.fingerprint == c.fingerprint
                &&& d.config.fix_ips.no_duplicates()
                &&& d.config.fix_ips.to_set() == c.ips.to_set()
                &&& d.state.active == c.active
                &&& d.state.ips == c.ips.to_set()
                &&& d.state.active_addr is None && !d.state.alive && !d.state.resolving
            }
        },
{
    assert(config@.role() == role_of(config@));
    super::lemma_configured_manager(config@.clients);
    lemma_nobody_waits(config@.clients);
    if 0 <= i < config.clients@.len() {
        assert(config@.clients[i] == config.clients@[i]@);
        lemma_distinct_ips(config.clients@[i]@.ips);
    }
}

/// Nobody waits where there was no connection yet.
proof fn lemma_nobody_waits(clients: Seq<ConfigClientView>)
    ensures
        super::configured_manager(clients).parked == Map::<
            Seq<char>,
            crate::net::SocketAddr,
        >::empty(),
    decreases clients.len(),
{
    if clients.len() > 0 {
        lemma_nobody_waits(clients.drop_last());
    }
}

/// When the configuration is read, a client of the file that is to be active
/// is, unless a later one takes its edge.
pub proof fn lemma_loaded_clients_are_active(
    s: &mut Service,
    new: SavedConfig,
    bind: Vec<u32>,
    i: int,
)
    requires
        old(s)@.clients.wf(),
        new.clients@.len() <= crate::client::MAX_CLIENTS,
        0 <= i < new.clients@.len(),
        new.clients@[i].active,
        forall|j: int|
            i < j < new.clients@.len() ==> !(#[trigger] new.clients@[j]).active
                || new.clients@[j].pos != new.clients@[i].pos,
        call_ensures(Service::handle_config_change, (s, new, bind), ()),
    ensures
        exists|h: ClientHandle|
            #[trigger] loaded(final(s)@, new.clients@[i]@, h) && final(s)@.clients.get(
                h,
            )->0.state.active,
{
    let a = old(s)@;
    let b = final(s)@;
    let c = changed_over(a, new@);
    let all = new@.clients;
    lemma_reading(a, new@, bind@);
    assert(all.len() == new.clients@.len());
    lemma_replacing(c, all, 0, 0);
    let w = replaced(c, all);
    lemma_closing(w, new@.keys, bind@);
    let u = c.remove_clients(c.clients.handles());
    c.lemma_remove_clients_frame(c.clients.handles());
    c.lemma_remove_all_clients();
    assert(all[i] == new.clients@[i]@);
    assert forall|j: int| i < j < all.len() implies !(#[trigger] all[j]).active || all[j].pos
        != all[i].pos by {
        assert(all[j] == new.clients@[j]@);
        assert(!new.clients@[j].active || new.clients@[j].pos != new.clients@[i].pos);
    }
    lemma_last_loaded_is_active(u, all, i);
    let h = choose|h: ClientHandle|
        #[trigger] loaded(w, all[i], h) && w.clients.get(h)->0.state.active;
    lemma_still_loaded(w, b, all[i], h);
    assert(loaded(b, new.clients@[i]@, h));
}

} // verus!
