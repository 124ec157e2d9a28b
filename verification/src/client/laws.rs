//! What holds of the clients whatever is done to them.
//!
//! Each law speaks of calls: of what goes into them and what comes out.

use super::{
    lemma_first_match, lemma_used_keys, slot, used_keys, ClientManager, ClientView, ConfigClient,
    ManagerView, QueryView,
};
use crate::ipc::{ClientConfig, ClientHandle, ClientState, ConfigView, Position, StateView};
use crate::net::{IpAddr, SocketAddr};
use crate::text::opt_view;
use vstd::prelude::*;

verus! {

/// Between two managers nothing changed but the client with handle `h`.
pub open spec fn only(a: ManagerView, b: ManagerView, h: ClientHandle) -> bool {
    &&& a.slots.len() == b.slots.len()
    &&& a.free == b.free
    &&& a.parked == b.parked
    &&& forall|k: ClientHandle| slot(k) != slot(h) ==> #[trigger] b.get(k) == a.get(k)
}

/// A client that is not there cannot be changed.
pub open spec fn absent(a: ManagerView, b: ManagerView, h: ClientHandle) -> bool {
    a.get(h) is None ==> b == a
}

/// `r` is the lowest handle of a client with a property, and `None` only where
/// no client has it.
pub open spec fn lowest(m: ManagerView, p: spec_fn(ClientView) -> bool, r: Option<ClientHandle>) -> bool {
    match r {
        Some(h) => {
            &&& h < m.slots.len()
            &&& m.slots[h as int] matches Some(c) && p(c)
            &&& forall|k: int| 0 <= k < h ==> ((#[trigger] m.slots[k]) matches Some(c) ==> !p(c))
        },
        None => forall|k: int|
            0 <= k < m.slots.len() ==> ((#[trigger] m.slots[k]) matches Some(c) ==> !p(c)),
    }
}

/// A device is found by its fingerprint: the lowest client that is paired
/// with it, or none where none is.
pub proof fn lemma_found_by_fingerprint(m: &ClientManager, f: &str, r: Option<ClientHandle>)
    requires
        m@.slots.len() <= usize::MAX,
        call_ensures(ClientManager::get_client_by_fingerprint, (m, f), r),
    ensures
        lowest(m@, |c: ClientView| c.config.fingerprint == Some(f@), r),
{
    lemma_first_match(m@.slots, QueryView::Fingerprint(f@));
}

/// A connection is found by its address: the lowest client that is connected
/// from just there.
pub proof fn lemma_found_by_connection(m: &ClientManager, addr: SocketAddr, r: Option<ClientHandle>)
    requires
        m@.slots.len() <= usize::MAX,
        call_ensures(ClientManager::get_client_by_active_addr, (m, addr), r),
    ensures
        lowest(m@, |c: ClientView| c.state.active_addr == Some(addr), r),
{
    lemma_first_match(m@.slots, QueryView::ActiveAddr(addr));
}

/// A client is found by any of its addresses, whatever the port, as long as
/// it is active.
pub proof fn lemma_found_by_address(
    m: &ClientManager,
    v4: u32,
    v6: u128,
    port: u16,
    flowinfo: u32,
    scope_id: u32,
    r: Option<ClientHandle>,
    s: Option<ClientHandle>,
)
    requires
        m@.slots.len() <= usize::MAX,
        call_ensures(ClientManager::get_client, (m, SocketAddr::V4 { ip: v4, port }), r),
        call_ensures(
            ClientManager::get_client,
            (m, SocketAddr::V6 { ip: v6, port, flowinfo, scope_id }),
            s,
        ),
    ensures
        lowest(m@, |c: ClientView| c.state.active && c.state.ips.contains(IpAddr::V4(v4)), r),
        lowest(m@, |c: ClientView| c.state.active && c.state.ips.contains(IpAddr::V6(v6)), s),
{
    lemma_first_match(m@.slots, QueryView::Ip(IpAddr::V4(v4)));
    lemma_first_match(m@.slots, QueryView::Ip(IpAddr::V6(v6)));
}

/// The client at an edge is the lowest active one that lies there.
pub proof fn lemma_found_by_edge(m: &ClientManager, pos: Position, r: Option<ClientHandle>)
    requires
        m@.slots.len() <= usize::MAX,
        call_ensures(ClientManager::client_at, (m, pos), r),
    ensures
        lowest(m@, |c: ClientView| c.state.active && c.config.pos == pos, r),
{
    lemma_first_match(m@.slots, QueryView::ActiveAt(pos));
}

/// No client, active or not, lies at an edge.
pub open spec fn vacant(m: ManagerView, pos: Position) -> bool {
    forall|k: int|
        0 <= k < m.slots.len() ==> ((#[trigger] m.slots[k]) matches Some(c) ==> c.config.pos != pos)
}

/// The edge for a new device is the first vacant one of right, left, top and
/// bottom.
pub proof fn lemma_edges_are_offered_in_order(m: &ClientManager, r: Option<Position>)
    requires
        m@.slots.len() <= usize::MAX,
        call_ensures(ClientManager::first_free_position, (m,), r),
    ensures
        r == if vacant(m@, Position::Right) {
            Some(Position::Right)
        } else if vacant(m@, Position::Left) {
            Some(Position::Left)
        } else if vacant(m@, Position::Top) {
            Some(Position::Top)
        } else if vacant(m@, Position::Bottom) {
            Some(Position::Bottom)
        } else {
            None
        },
{
    lemma_vacant(m@, Position::Right);
    lemma_vacant(m@, Position::Left);
    lemma_vacant(m@, Position::Top);
    lemma_vacant(m@, Position::Bottom);
}

proof fn lemma_vacant(m: ManagerView, pos: Position)
    requires
        m.slots.len() <= usize::MAX,
    ensures
        m.edge_free(pos) <==> vacant(m, pos),
{
    lemma_first_match(m.slots, QueryView::At(pos));
    if let Some(h) = m.first(QueryView::At(pos)) {
        assert(m.slots[h as int] is Some);
    }
}

/// A new client has the default configuration and state, under the handle
/// that is returned; every client that was there stays as it was.
pub proof fn lemma_new_client_is_added(m: &mut ClientManager, h: ClientHandle)
    requires
        old(m)@.wf(),
        old(m)@.room(1),
        call_ensures(ClientManager::add_client, (m,), h),
    ensures
        old(m)@.get(h) is None,
        final(m)@.get(h) == Some(
            ClientView {
                config: ConfigView {
                    hostname: None,
                    fix_ips: seq![],
                    port: 4242,
                    pos: Position::Left,
                    cmd: None,
                    fingerprint: None,
                },
                state: StateView {
                    active: false,
                    active_addr: None,
                    alive: false,
                    dns_ips: seq![],
                    ips: Set::empty(),
                    has_pressed_keys: false,
                    resolving: false,
                    peer_commit: None,
                },
            },
        ),
        forall|k: ClientHandle|
            slot(k) != slot(h) ==> #[trigger] final(m)@.get(k) == old(m)@.get(k),
        final(m)@.parked == old(m)@.parked,
        final(m)@.count() == old(m)@.count() + 1,
{
    let c = ClientView {
        config: crate::ipc::default_config(),
        state: crate::ipc::default_state(),
    };
    old(m)@.lemma_insert(c);
    assert(final(m)@ == old(m)@.insert(c));
    assert(c.config.fix_ips =~= seq![]);
    assert(c.state.dns_ips =~= seq![]);
}

/// A client of the configuration file is added as the file has it: with each
/// of its addresses once, known as addresses of the client, and active if the
/// file says so.
pub proof fn lemma_configured_client_is_added(m: &mut ClientManager, c: ConfigClient, h: ClientHandle)
    requires
        old(m)@.wf(),
        old(m)@.room(1),
        call_ensures(ClientManager::add_with_config, (m, c), h),
    ensures
        old(m)@.get(h) is None,
        forall|k: ClientHandle|
            slot(k) != slot(h) ==> #[trigger] final(m)@.get(k) == old(m)@.get(k),
        final(m)@.parked == old(m)@.parked,
        final(m)@.get(h) matches Some(d) && {
            &&& d.config.hostname == opt_view(c.hostname)
            &&& d.config.port == c.port
            &&& d.config.pos == c.pos
            &&& d.config.cmd == opt_view(c.enter_hook)
            &&& d.config.fingerprint == opt_view(c.fingerprint)
            &&& d.config.fix_ips.no_duplicates()
            &&& d.config.fix_ips.to_set() == c.ips@.to_set()
            &&& d.state.active == c.active
            &&& d.state.ips == c.ips@.to_set()
            &&& d.state.dns_ips == Seq::<IpAddr>::empty()
            &&& d.state.active_addr is None
            &&& !d.state.alive
            &&& !d.state.resolving
            &&& !d.state.has_pressed_keys
            &&& d.state.peer_commit is None
        },
{
    old(m)@.lemma_insert(super::configured_client(c@));
    crate::net::lemma_distinct_ips(c.ips@);
}

/// A client that is removed is given back as it was, and is gone; the others
/// stay as they were.
pub proof fn lemma_removed_client_is_gone(
    m: &mut ClientManager,
    h: ClientHandle,
    r: Option<(ClientConfig, ClientState)>,
)
    requires
        old(m)@.wf(),
        call_ensures(ClientManager::remove_client, (m, h), r),
    ensures
        final(m)@.get(h) is None,
        r is Some <==> old(m)@.get(h) is Some,
        r matches Some(c) ==> old(m)@.get(h) == Some(ClientView { config: c.0@, state: c.1@ }),
        forall|k: ClientHandle|
            slot(k) != slot(h) ==> #[trigger] final(m)@.get(k) == old(m)@.get(k),
        final(m)@.parked == old(m)@.parked,
{
    old(m)@.lemma_remove(h);
}

/// What is set of a client is what it has afterwards; nothing else of it, and
/// no other client, changes.
pub proof fn lemma_configuration_is_set(
    m: &mut ClientManager,
    h: ClientHandle,
    c: ClientView,
    config: ClientConfig,
)
    requires
        call_ensures(ClientManager::set_config, (m, h, config), ()),
    ensures
        absent(old(m)@, final(m)@, h),
        old(m)@.get(h) == Some(c) ==> only(old(m)@, final(m)@, h) && final(m)@.get(h) == Some(
            ClientView { config: config@, ..c },
        ),
{
}

/// As for the configuration.
pub proof fn lemma_state_is_set(
    m: &mut ClientManager,
    h: ClientHandle,
    c: ClientView,
    state: ClientState,
)
    requires
        call_ensures(ClientManager::set_state, (m, h, state), ()),
    ensures
        absent(old(m)@, final(m)@, h),
        old(m)@.get(h) == Some(c) ==> only(old(m)@, final(m)@, h) && final(m)@.get(h) == Some(
            ClientView { state: state@, ..c },
        ),
{
}

/// A client that is made active is, and the call tells whether it was not.
pub proof fn lemma_client_is_activated(
    m: &mut ClientManager,
    h: ClientHandle,
    c: ClientView,
    r: bool,
)
    requires
        call_ensures(ClientManager::activate_client, (m, h), r),
    ensures
        absent(old(m)@, final(m)@, h),
        old(m)@.get(h) is None ==> !r,
        old(m)@.get(h) == Some(c) ==> {
            &&& r == !c.state.active
            &&& only(old(m)@, final(m)@, h)
            &&& final(m)@.get(h) == Some(
                ClientView { state: StateView { active: true, ..c.state }, ..c },
            )
        },
{
}

/// A client that is made inactive is, and the call tells whether it was not.
pub proof fn lemma_client_is_deactivated(
    m: &mut ClientManager,
    h: ClientHandle,
    c: ClientView,
    r: bool,
)
    requires
        call_ensures(ClientManager::deactivate_client, (m, h), r),
    ensures
        absent(old(m)@, final(m)@, h),
        old(m)@.get(h) is None ==> !r,
        old(m)@.get(h) == Some(c) ==> {
            &&& r == c.state.active
            &&& only(old(m)@, final(m)@, h)
            &&& final(m)@.get(h) == Some(
                ClientView { state: StateView { active: false, ..c.state }, ..c },
            )
        },
{
}

/// A device that waits is noted under its fingerprint.
pub proof fn lemma_device_waits(m: &mut ClientManager, f: String, addr: SocketAddr)
    requires
        call_ensures(ClientManager::park, (m, f, addr), ()),
    ensures
        final(m)@.parked == old(m)@.parked.insert(f@, addr),
        final(m)@.slots == old(m)@.slots,
        final(m)@.free == old(m)@.free,
{
}

/// A device that waited is given up with where it connected from, and waits
/// no more.
pub proof fn lemma_device_is_taken(m: &mut ClientManager, f: &str, r: Option<SocketAddr>)
    requires
        call_ensures(ClientManager::unpark, (m, f), r),
    ensures
        r is Some <==> old(m)@.parked.contains_key(f@),
        r matches Some(a) ==> old(m)@.parked[f@] == a,
        final(m)@.parked == old(m)@.parked.remove(f@),
        final(m)@.slots == old(m)@.slots,
        final(m)@.free == old(m)@.free,
{
}

/// A device that waited at an address waits no more, whichever it was.
pub proof fn lemma_device_is_taken_by_address(
    m: &mut ClientManager,
    addr: SocketAddr,
    r: Option<String>,
    g: Seq<char>,
)
    requires
        call_ensures(ClientManager::unpark_addr, (m, addr), r),
    ensures
        r is None ==> final(m)@ == old(m)@,
        r is None && old(m)@.parked.contains_key(g) ==> old(m)@.parked[g] != addr,
        r matches Some(f) ==> {
            &&& old(m)@.parked.contains_key(f@)
            &&& old(m)@.parked[f@] == addr
            &&& final(m)@.parked == old(m)@.parked.remove(f@)
            &&& final(m)@.slots == old(m)@.slots
            &&& final(m)@.free == old(m)@.free
        },
{
}

/// What is read of a client is what it has; of one that is not there, nothing.
pub proof fn lemma_clients_are_read(
    m: &ClientManager,
    h: ClientHandle,
    name: Option<String>,
    pos: Option<Position>,
    cmd: Option<String>,
    addr: Option<SocketAddr>,
    alive: bool,
    all: Option<(ClientConfig, ClientState)>,
)
    requires
        call_ensures(ClientManager::get_hostname, (m, h), name),
        call_ensures(ClientManager::get_pos, (m, h), pos),
        call_ensures(ClientManager::get_enter_cmd, (m, h), cmd),
        call_ensures(ClientManager::active_addr, (m, h), addr),
        call_ensures(ClientManager::alive, (m, h), alive),
        call_ensures(ClientManager::get_state, (m, h), all),
    ensures
        match m@.get(h) {
            Some(c) => {
                &&& opt_view(name) == c.config.hostname
                &&& pos == Some(c.config.pos)
                &&& opt_view(cmd) == c.config.cmd
                &&& addr == c.state.active_addr
                &&& alive == c.state.alive
                &&& all matches Some(a) && a.0@ == c.config && a.1@ == c.state
            },
            None => name is None && pos is None && cmd is None && addr is None && !alive
                && all is None,
        },
{
}

/// The addresses that the user gives are known as the client's, beside those
/// that were resolved.
pub proof fn lemma_fixed_addresses_are_set(
    m: &mut ClientManager,
    h: ClientHandle,
    c: ClientView,
    ips: Vec<IpAddr>,
)
    requires
        call_ensures(ClientManager::set_fix_ips, (m, h, ips), ()),
    ensures
        absent(old(m)@, final(m)@, h),
        old(m)@.get(h) == Some(c) ==> only(old(m)@, final(m)@, h) && final(m)@.get(h) == Some(
            ClientView {
                config: ConfigView { fix_ips: ips@, ..c.config },
                state: StateView { ips: ips@.to_set() + c.state.dns_ips.to_set(), ..c.state },
            },
        ),
{
}

/// The addresses that were resolved are known as the client's, beside those
/// that the user gave.
pub proof fn lemma_resolved_addresses_are_set(
    m: &mut ClientManager,
    h: ClientHandle,
    c: ClientView,
    ips: Vec<IpAddr>,
)
    requires
        call_ensures(ClientManager::set_dns_ips, (m, h, ips), ()),
    ensures
        absent(old(m)@, final(m)@, h),
        old(m)@.get(h) == Some(c) ==> only(old(m)@, final(m)@, h) && final(m)@.get(h) == Some(
            ClientView {
                state: StateView {
                    dns_ips: ips@,
                    ips: c.config.fix_ips.to_set() + ips@.to_set(),
                    ..c.state
                },
                ..c
            },
        ),
{
}

/// A client that gets another name is no longer known by what the old one
/// resolved to, nor as connected; the call tells whether the name is another.
pub proof fn lemma_name_is_set(
    m: &mut ClientManager,
    h: ClientHandle,
    c: ClientView,
    name: Option<String>,
    r: bool,
)
    requires
        call_ensures(ClientManager::set_hostname, (m, h, name), r),
    ensures
        absent(old(m)@, final(m)@, h),
        old(m)@.get(h) is None ==> !r,
        old(m)@.get(h) == Some(c) ==> {
            &&& r == (c.config.hostname != opt_view(name))
            &&& !r ==> final(m)@ == old(m)@
            &&& r ==> only(old(m)@, final(m)@, h) && final(m)@.get(h) == Some(
                ClientView {
                    config: ConfigView { hostname: opt_view(name), ..c.config },
                    state: StateView {
                        active_addr: None,
                        dns_ips: seq![],
                        ips: c.config.fix_ips.to_set(),
                        ..c.state
                    },
                },
            )
        },
{
}

/// A client that gets another port is reached there, at the address that it
/// is connected from.
pub proof fn lemma_port_is_set(m: &mut ClientManager, h: ClientHandle, c: ClientView, port: u16)
    requires
        call_ensures(ClientManager::set_port, (m, h, port), ()),
    ensures
        absent(old(m)@, final(m)@, h),
        old(m)@.get(h) == Some(c) ==> {
            &&& only(old(m)@, final(m)@, h)
            &&& final(m)@.get(h) matches Some(d) && {
                &&& d.config == (ConfigView { port, ..c.config })
                &&& d.state == (StateView { active_addr: d.state.active_addr, ..c.state })
                &&& c.config.port == port ==> d == c
                &&& c.state.active_addr is None ==> d.state.active_addr is None
                &&& c.config.port != port ==> (c.state.active_addr matches Some(
                    SocketAddr::V4 { ip, .. },
                ) ==> d.state.active_addr == Some(SocketAddr::V4 { ip, port }))
                &&& c.config.port != port ==> (c.state.active_addr matches Some(
                    SocketAddr::V6 { ip, .. },
                ) ==> d.state.active_addr == Some(
                    SocketAddr::V6 { ip, port, flowinfo: 0, scope_id: 0 },
                ))
            }
        },
{
    if let Some(c) = old(m)@.get(h) {
        if c.config.port == port {
            assert(final(m)@ == old(m)@);
        }
    }
}

/// A client that moves to another edge lies there; the call tells whether its
/// barrier has to move with it.
pub proof fn lemma_edge_is_set(
    m: &mut ClientManager,
    h: ClientHandle,
    c: ClientView,
    pos: Position,
    r: bool,
)
    requires
        call_ensures(ClientManager::set_pos, (m, h, pos), r),
    ensures
        absent(old(m)@, final(m)@, h),
        old(m)@.get(h) is None ==> !r,
        old(m)@.get(h) == Some(c) ==> {
            &&& r == (c.config.pos != pos && c.state.active)
            &&& only(old(m)@, final(m)@, h)
            &&& final(m)@.get(h) == Some(
                ClientView { config: ConfigView { pos, ..c.config }, ..c },
            )
        },
{
}

/// The hook, the connection, availability, the build and whether a name is
/// being resolved are set one by one.
pub proof fn lemma_hook_is_set(
    m: &mut ClientManager,
    h: ClientHandle,
    c: ClientView,
    cmd: Option<String>,
)
    requires
        call_ensures(ClientManager::set_enter_hook, (m, h, cmd), ()),
    ensures
        absent(old(m)@, final(m)@, h),
        old(m)@.get(h) == Some(c) ==> only(old(m)@, final(m)@, h) && final(m)@.get(h) == Some(
            ClientView { config: ConfigView { cmd: opt_view(cmd), ..c.config }, ..c },
        ),
{
}

/// Whether a name is being resolved is noted.
pub proof fn lemma_resolving_is_set(m: &mut ClientManager, h: ClientHandle, c: ClientView, on: bool)
    requires
        call_ensures(ClientManager::set_resolving, (m, h, on), ()),
    ensures
        absent(old(m)@, final(m)@, h),
        old(m)@.get(h) == Some(c) ==> only(old(m)@, final(m)@, h) && final(m)@.get(h) == Some(
            ClientView { state: StateView { resolving: on, ..c.state }, ..c },
        ),
{
}

/// Where a client is connected from is noted, and it is found by it.
pub proof fn lemma_connection_is_set(
    m: &mut ClientManager,
    h: ClientHandle,
    c: ClientView,
    addr: Option<SocketAddr>,
)
    requires
        call_ensures(ClientManager::set_active_addr, (m, h, addr), ()),
    ensures
        absent(old(m)@, final(m)@, h),
        old(m)@.get(h) == Some(c) ==> only(old(m)@, final(m)@, h) && final(m)@.get(h) == Some(
            ClientView { state: StateView { active_addr: addr, ..c.state }, ..c },
        ),
{
}

/// Whether a client is available is noted.
pub proof fn lemma_availability_is_set(
    m: &mut ClientManager,
    h: ClientHandle,
    c: ClientView,
    alive: bool,
)
    requires
        call_ensures(ClientManager::set_alive, (m, h, alive), ()),
    ensures
        absent(old(m)@, final(m)@, h),
        old(m)@.get(h) == Some(c) ==> only(old(m)@, final(m)@, h) && final(m)@.get(h) == Some(
            ClientView { state: StateView { alive, ..c.state }, ..c },
        ),
{
}

/// A client's build is noted.
pub proof fn lemma_build_is_set(
    m: &mut ClientManager,
    h: ClientHandle,
    c: ClientView,
    commit: Option<[u8; 8]>,
)
    requires
        call_ensures(ClientManager::set_peer_commit, (m, h, commit), ()),
    ensures
        absent(old(m)@, final(m)@, h),
        old(m)@.get(h) == Some(c) ==> only(old(m)@, final(m)@, h) && final(m)@.get(h) == Some(
            ClientView { state: StateView { peer_commit: commit, ..c.state }, ..c },
        ),
{
}

/// All clients are listed, each once, in ascending order of their handles.
pub proof fn lemma_all_clients_are_listed(m: &ClientManager, r: Vec<ClientHandle>, k: int)
    requires
        m@.slots.len() <= usize::MAX,
        call_ensures(ClientManager::registered_clients, (m,), r),
    ensures
        forall|i: int, j: int| 0 <= i < j < r@.len() ==> r@[i] < r@[j],
        forall|i: int| 0 <= i < r@.len() ==> m@.get(#[trigger] r@[i]) is Some,
        0 <= k < m@.slots.len() && m@.slots[k] is Some ==> r@.contains(k as u64),
{
    lemma_used_keys(m@.slots);
    let keys = used_keys(m@.slots);
    assert(r@ == m@.handles());
    if 0 <= k < m@.slots.len() && m@.slots[k] is Some {
        let i = choose|i: int| 0 <= i < keys.len() && keys[i] == k as usize;
        assert(r@[i] == k as u64);
    }
}

/// All clients are told of with what they are, in ascending order of their
/// handles.
pub proof fn lemma_all_clients_are_told(
    m: &ClientManager,
    r: Vec<(ClientHandle, ClientConfig, ClientState)>,
    k: int,
)
    requires
        m@.slots.len() <= usize::MAX,
        call_ensures(ClientManager::get_client_states, (m,), r),
    ensures
        forall|i: int, j: int|
            0 <= i < j < r@.len() ==> (#[trigger] r@[i]).0 < (#[trigger] r@[j]).0,
        forall|i: int|
            0 <= i < r@.len() ==> m@.get((#[trigger] r@[i]).0) == Some(
                ClientView { config: r@[i].1@, state: r@[i].2@ },
            ),
        0 <= k < m@.slots.len() && m@.slots[k] is Some ==> exists|i: int|
            0 <= i < r@.len() && (#[trigger] r@[i]).0 == k,
{
    lemma_used_keys(m@.slots);
    let keys = used_keys(m@.slots);
    let all = crate::ipc::entry_views(r@);
    assert(all == m@.entries());
    assert(all.len() == r@.len());
    assert forall|i: int| 0 <= i < r@.len() implies m@.get((#[trigger] r@[i]).0) == Some(
        ClientView { config: r@[i].1@, state: r@[i].2@ },
    ) by {
        assert(all[i] == (r@[i].0, r@[i].1@, r@[i].2@));
        assert(all[i].0 == keys[i] as u64);
    }
    assert forall|i: int, j: int| 0 <= i < j < r@.len() implies (#[trigger] r@[i]).0 < (
    #[trigger] r@[j]).0 by {
        assert(all[i].0 == keys[i] as u64 && all[j].0 == keys[j] as u64);
    }
    if 0 <= k < m@.slots.len() && m@.slots[k] is Some {
        let i = choose|i: int| 0 <= i < keys.len() && keys[i] == k as usize;
        assert(all[i].0 == k as u64);
        assert(r@[i].0 == k);
    }
}

/// Just the active clients are listed as active, in ascending order.
pub proof fn lemma_active_clients_are_listed(m: &ClientManager, r: Vec<ClientHandle>, k: int)
    requires
        m@.slots.len() <= usize::MAX,
        call_ensures(ClientManager::active_clients, (m,), r),
    ensures
        forall|i: int|
            0 <= i < r@.len() ==> (m@.get(#[trigger] r@[i]) matches Some(c) && c.state.active),
        0 <= k < m@.slots.len() && (m@.slots[k] matches Some(c) && c.state.active) ==> r@.contains(
            k as u64,
        ),
{
    lemma_used_keys(m@.slots);
    let keys = used_keys(m@.slots);
    let all = m@.handles();
    let p = |h: ClientHandle| m@.slots[h as int]->0.state.active;
    assert(r@ == all.filter(p));
    assert forall|i: int| 0 <= i < r@.len() implies (m@.get(#[trigger] r@[i]) matches Some(c)
        && c.state.active) by {
        assert(all.filter(p).contains(r@[i]));
        all.lemma_filter_contains_rev(p, r@[i]);
        let n = all.index_of(r@[i]);
        assert(all[n] == keys[n] as u64);
        all.lemma_filter_pred(p, i);
    }
    if 0 <= k < m@.slots.len() && (m@.slots[k] matches Some(c) && c.state.active) {
        let i = choose|i: int| 0 <= i < keys.len() && keys[i] == k as usize;
        assert(all[i] == k as u64);
        all.lemma_filter_contains(p, i);
    }
}

/// At first there are no clients and nobody waits; there is room for as many
/// as there can be.
pub proof fn lemma_no_clients_at_first(new: ClientManager, m: &ClientManager, n: usize, b: bool)
    requires
        call_ensures(<ClientManager as Default>::default, (), new),
        call_ensures(ClientManager::has_room, (m, n), b),
    ensures
        new@.slots.len() == 0,
        new@.free.len() == 0,
        new@.parked == Map::<Seq<char>, SocketAddr>::empty(),
        b <==> m@.count() + n <= usize::MAX / 4096,
{
}

/// Room is what is left of the most that there can be.
pub proof fn lemma_room_is_what_is_left(clients: usize, n: usize, b: bool)
    requires
        call_ensures(super::fits, (clients, n), b),
    ensures
        b <==> clients + n <= usize::MAX / 4096,
{
}

/// All clients are given out as they are, in the order of their handles.
pub proof fn lemma_all_clients_are_given_out(
    m: &ClientManager,
    r: Vec<(ClientConfig, ClientState)>,
    told: Vec<(ClientHandle, ClientConfig, ClientState)>,
    i: int,
)
    requires
        call_ensures(ClientManager::clients, (m,), r),
        call_ensures(ClientManager::get_client_states, (m,), told),
    ensures
        r@.len() == told@.len(),
        0 <= i < r@.len() ==> r@[i].0@ == told@[i].1@ && r@[i].1@ == told@[i].2@,
{
    let a = r@.map_values(|c: (ClientConfig, ClientState)| (c.0@, c.1@));
    let all = crate::ipc::entry_views(told@);
    assert(a.len() == r@.len() && all.len() == told@.len());
    if 0 <= i < r@.len() {
        assert(a[i] == (r@[i].0@, r@[i].1@));
        assert(all[i] == (told@[i].0, told@[i].1@, told@[i].2@));
    }
}

/// A copy of a client of the configuration file is the same client.
pub proof fn lemma_configured_client_is_copied(c: &ConfigClient, d: ConfigClient)
    requires
        call_ensures(<ConfigClient as Clone>::clone, (c,), d),
    ensures
        d.ips@ == c.ips@ && opt_view(d.hostname) == opt_view(c.hostname),
        d.port == c.port && d.pos == c.pos && d.active == c.active,
        opt_view(d.enter_hook) == opt_view(c.enter_hook),
        opt_view(d.fingerprint) == opt_view(c.fingerprint),
{
    assert(d@ == c@);
}

} // verus!
