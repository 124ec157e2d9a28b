//! The clients a server knows, and the devices that wait to become one.

pub mod laws;

use crate::ipc::{ClientConfig, ClientHandle, ClientState, ConfigView, Position, StateView};
use crate::ipc::{default_config, default_state};
use crate::net::{dedup_ips, distinct_ips, ip_of, socket_addr, IpAddr, IpSet, SocketAddr};
use crate::text::{clone_opt, opt_is, opt_view, same_opt, TextMap};
use slab::Slab;
use vstd::prelude::*;

verus! {

/// How many clients fit: well below what an allocation can hold.
pub const MAX_CLIENTS: usize = usize::MAX / 4096;

/// A slab of values, each at the key it was given when it was stored.
#[verifier::external_type_specification]
#[verifier::external_body]
#[verifier::reject_recursive_types(T)]
pub struct ExSlab<T>(Slab<T>);

/// What each key of a slab holds, from key zero on.
pub uninterp spec fn slab_slots(slab: Slab<(ClientConfig, ClientState)>) -> Seq<
    Option<(ClientConfig, ClientState)>,
>;

/// The keys a slab will use again, the next one last.
pub uninterp spec fn slab_free(slab: Slab<(ClientConfig, ClientState)>) -> Seq<usize>;

/// The key under which the next value will be stored.
pub open spec fn next_key<T>(slots: Seq<Option<T>>, free: Seq<usize>) -> int {
    if free.len() == 0 {
        slots.len() as int
    } else {
        free.last() as int
    }
}

/// The slots with one more value, under the next key.
pub open spec fn slots_inserted<T>(slots: Seq<Option<T>>, free: Seq<usize>, v: T) -> Seq<Option<T>> {
    if free.len() == 0 {
        slots.push(Some(v))
    } else {
        slots.update(free.last() as int, Some(v))
    }
}

/// The free keys once the next one is in use.
pub open spec fn free_used(free: Seq<usize>) -> Seq<usize> {
    if free.len() == 0 {
        free
    } else {
        free.drop_last()
    }
}

/// The keys in use, in ascending order.
pub open spec fn used_keys<T>(slots: Seq<Option<T>>) -> Seq<usize>
    decreases slots.len(),
{
    if slots.len() == 0 {
        seq![]
    } else if slots.last() is Some {
        used_keys(slots.drop_last()).push((slots.len() - 1) as usize)
    } else {
        used_keys(slots.drop_last())
    }
}

/// `Slab::new`: a slab without values, whose first key is zero.
#[verifier::external_body]
fn slab_new() -> (s: Slab<(ClientConfig, ClientState)>)
    ensures
        slab_slots(s) == Seq::<Option<(ClientConfig, ClientState)>>::empty(),
        slab_free(s) == Seq::<usize>::empty(),
{
    Slab::new()
}

/// `Slab::insert`: stores a value under the key that became free last, or
/// under a new one where none is free, and returns the key. It grows only
/// where every slot is in use, and panics once the storage exceeds the largest
/// allocation.
#[verifier::external_body]
fn slab_insert(s: &mut Slab<(ClientConfig, ClientState)>, v: (ClientConfig, ClientState)) -> (key:
    usize)
    requires
        used_keys(slab_slots(*old(s))).len() < MAX_CLIENTS,
    ensures
        key == next_key(slab_slots(*old(s)), slab_free(*old(s))),
        slab_slots(*final(s)) == slots_inserted(slab_slots(*old(s)), slab_free(*old(s)), v),
        slab_free(*final(s)) == free_used(slab_free(*old(s))),
        slab_free(*old(s)).len() > 0 ==> key < slab_slots(*old(s)).len(),
{
    s.insert(v)
}

/// `Slab::get`: the value under a key, if there is one.
#[verifier::external_body]
fn slab_get(s: &Slab<(ClientConfig, ClientState)>, key: usize) -> (r: Option<
    &(ClientConfig, ClientState),
>)
    ensures
        match r {
            Some(v) => key < slab_slots(*s).len() && slab_slots(*s)[key as int] == Some(*v),
            None => key < slab_slots(*s).len() ==> slab_slots(*s)[key as int] is None,
        },
{
    s.get(key)
}

/// `Slab::get_mut`: access to the value under a key, if there is one. What
/// is written there is what the key holds afterwards; nothing else changes.
#[verifier::external_body]
fn slab_get_mut(s: &mut Slab<(ClientConfig, ClientState)>, key: usize) -> (r: Option<
    &mut (ClientConfig, ClientState),
>)
    ensures
        match r {
            Some(v) => key < slab_slots(*old(s)).len() && slab_slots(*old(s))[key as int] == Some(*v)
                && slab_slots(*final(s)) == slab_slots(*old(s)).update(
                key as int,
                Some(*final(v)),
            ) && slab_free(*final(s)) == slab_free(*old(s)),
            None => (key < slab_slots(*old(s)).len() ==> slab_slots(*old(s))[key as int] is None)
                && *final(s) == *old(s),
        },
{
    s.get_mut(key)
}

/// `Slab::try_remove`: takes out the value under a key, if there is one. The
/// key is the next to be used again.
#[verifier::external_body]
fn slab_try_remove(s: &mut Slab<(ClientConfig, ClientState)>, key: usize) -> (r: Option<
    (ClientConfig, ClientState),
>)
    ensures
        match r {
            Some(v) => key < slab_slots(*old(s)).len() && slab_slots(*old(s))[key as int] == Some(v)
                && slab_slots(*final(s)) == slab_slots(*old(s)).update(key as int, None)
                && slab_free(*final(s)) == slab_free(*old(s)).push(key),
            None => (key < slab_slots(*old(s)).len() ==> slab_slots(*old(s))[key as int] is None)
                && *final(s) == *old(s),
        },
{
    s.try_remove(key)
}

/// `Slab::iter`: walks the values by ascending key. Only the keys are kept.
#[verifier::external_body]
fn slab_keys(s: &Slab<(ClientConfig, ClientState)>) -> (keys: Vec<usize>)
    ensures
        keys@ == used_keys(slab_slots(*s)),
{
    s.iter().map(|(k, _)| k).collect()
}

/// `Slab::len`: how many keys hold a value.
#[verifier::external_body]
fn slab_len(s: &Slab<(ClientConfig, ClientState)>) -> (n: usize)
    ensures
        n == used_keys(slab_slots(*s)).len(),
{
    s.len()
}

/// `Slab::capacity`: how many slots fit without allocating, which is never
/// fewer than there are.
#[verifier::external_body]
fn slab_capacity(s: &Slab<(ClientConfig, ClientState)>) -> (n: usize)
    ensures
        slab_slots(*s).len() <= n,
{
    s.capacity()
}

/// A client, as a value.
pub struct ClientView {
    pub config: ConfigView,
    pub state: StateView,
}

/// The value of a client that is there.
pub open spec fn client_view(c: Option<(ClientConfig, ClientState)>) -> Option<ClientView> {
    match c {
        Some(c) => Some(ClientView { config: c.0@, state: c.1@ }),
        None => None,
    }
}

/// The slot a handle stands for.
pub open spec fn slot(h: ClientHandle) -> int {
    (h as usize) as int
}

/// What a client can be looked up by.
pub enum QueryView {
    /// an address of an active client
    Ip(IpAddr),
    /// the fingerprint it is paired with
    Fingerprint(Seq<char>),
    /// where its accepted connection comes from
    ActiveAddr(SocketAddr),
    /// the edge of an active client
    ActiveAt(Position),
    /// the edge of any client
    At(Position),
}

/// Whether a client is one that is looked for.
pub open spec fn matches_query(q: QueryView, c: ClientView) -> bool {
    match q {
        QueryView::Ip(ip) => c.state.active && c.state.ips.contains(ip),
        QueryView::Fingerprint(f) => c.config.fingerprint == Some(f),
        QueryView::ActiveAddr(addr) => c.state.active_addr == Some(addr),
        QueryView::ActiveAt(pos) => c.state.active && c.config.pos == pos,
        QueryView::At(pos) => c.config.pos == pos,
    }
}

/// The lowest handle whose client is one that is looked for.
pub open spec fn first_match(slots: Seq<Option<ClientView>>, q: QueryView) -> Option<ClientHandle>
    decreases slots.len(),
{
    if slots.len() == 0 {
        None
    } else {
        match first_match(slots.drop_last(), q) {
            Some(h) => Some(h),
            None => match slots.last() {
                Some(c) if matches_query(q, c) => Some((slots.len() - 1) as u64),
                _ => None,
            },
        }
    }
}

/// `r` is the lowest handle whose client is one that is looked for.
pub open spec fn is_first(
    slots: Seq<Option<ClientView>>,
    q: QueryView,
    r: Option<ClientHandle>,
) -> bool {
    match r {
        Some(h) => {
            &&& h < slots.len()
            &&& slots[h as int] matches Some(c) && matches_query(q, c)
            &&& forall|k: int|
                0 <= k < h ==> ((#[trigger] slots[k]) matches Some(c) ==> !matches_query(q, c))
        },
        None => forall|k: int|
            0 <= k < slots.len() ==> ((#[trigger] slots[k]) matches Some(c) ==> !matches_query(q, c)),
    }
}

/// A lookup gives the lowest handle whose client is one that is looked for,
/// and fails only where there is none.
pub proof fn lemma_first_match(slots: Seq<Option<ClientView>>, q: QueryView)
    requires
        slots.len() <= usize::MAX,
    ensures
        is_first(slots, q, first_match(slots, q)),
    decreases slots.len(),
{
    if slots.len() > 0 {
        let init = slots.drop_last();
        lemma_first_match(init, q);
        assert(forall|k: int| 0 <= k < init.len() ==> init[k] == slots[k]);
    }
}

/// There is but one lowest handle.
proof fn lemma_first_unique(
    slots: Seq<Option<ClientView>>,
    q: QueryView,
    a: Option<ClientHandle>,
    b: Option<ClientHandle>,
)
    requires
        is_first(slots, q, a),
        is_first(slots, q, b),
    ensures
        a == b,
{
    if let (Some(x), Some(y)) = (a, b) {
        if x < y {
            assert(slots[x as int] is Some);
        } else if y < x {
            assert(slots[y as int] is Some);
        }
    } else if let Some(x) = a {
        assert(slots[x as int] is Some);
    } else if let Some(y) = b {
        assert(slots[y as int] is Some);
    }
}

/// The keys in use ascend, and are those of the slots that hold something.
pub proof fn lemma_used_keys<T>(slots: Seq<Option<T>>)
    requires
        slots.len() <= usize::MAX,
    ensures
        forall|i: int|
            0 <= i < used_keys(slots).len() ==> (#[trigger] used_keys(slots)[i]) < slots.len()
                && slots[used_keys(slots)[i] as int] is Some,
        forall|i: int, j: int|
            0 <= i < j < used_keys(slots).len() ==> used_keys(slots)[i] < used_keys(slots)[j],
        forall|k: int|
            0 <= k < slots.len() && (#[trigger] slots[k]) is Some ==> used_keys(slots).contains(
                k as usize,
            ),
    decreases slots.len(),
{
    if slots.len() > 0 {
        let init = slots.drop_last();
        lemma_used_keys(init);
        assert forall|k: int| 0 <= k < slots.len() && (#[trigger] slots[k]) is Some implies used_keys(
            slots,
        ).contains(k as usize) by {
            let keys = used_keys(init);
            if k < init.len() {
                assert(init[k] is Some);
                let i = choose|i: int| 0 <= i < keys.len() && keys[i] == k as usize;
                assert(used_keys(slots)[i] == k as usize);
            } else {
                assert(used_keys(slots)[keys.len() as int] == k as usize);
            }
        }
        assert(forall|k: int| 0 <= k < init.len() ==> init[k] == slots[k]);
    }
}

/// Changing a slot changes the number of those in use by that slot alone.
pub proof fn lemma_used_update<T>(slots: Seq<Option<T>>, i: int, c: Option<T>)
    requires
        0 <= i < slots.len(),
    ensures
        used_keys(slots.update(i, c)).len() + (if slots[i] is Some {
            1int
        } else {
            0
        }) == used_keys(slots).len() + (if c is Some {
            1int
        } else {
            0
        }),
    decreases slots.len(),
{
    let init = slots.drop_last();
    if i < init.len() {
        lemma_used_update(init, i, c);
        assert(slots.update(i, c).drop_last() =~= init.update(i, c));
    } else {
        assert(slots.update(i, c).drop_last() =~= init);
    }
}

/// Where every slot is in use there are as many keys as slots.
proof fn lemma_used_all<T>(slots: Seq<Option<T>>)
    requires
        forall|i: int| 0 <= i < slots.len() ==> (#[trigger] slots[i]) is Some,
    ensures
        used_keys(slots).len() == slots.len(),
    decreases slots.len(),
{
    if slots.len() > 0 {
        assert forall|i: int| 0 <= i < slots.len() - 1 implies (
        #[trigger] slots.drop_last()[i]) is Some by {
            assert(slots[i] is Some);
        }
        lemma_used_all(slots.drop_last());
    }
}

/// Where no slot is in use there are no keys.
pub proof fn lemma_used_none<T>(slots: Seq<Option<T>>)
    requires
        forall|i: int| 0 <= i < slots.len() ==> (#[trigger] slots[i]) is None,
    ensures
        used_keys(slots).len() == 0,
    decreases slots.len(),
{
    if slots.len() > 0 {
        assert forall|i: int| 0 <= i < slots.len() - 1 implies (
        #[trigger] slots.drop_last()[i]) is None by {
            assert(slots[i] is None);
        }
        assert(slots[slots.len() - 1] is None);
        lemma_used_none(slots.drop_last());
    }
}

/// Looking at values in place of clients leaves the keys in use.
proof fn lemma_used_keys_view(slots: Seq<Option<(ClientConfig, ClientState)>>)
    ensures
        used_keys(slots.map_values(|c: Option<(ClientConfig, ClientState)>| client_view(c)))
            == used_keys(slots),
    decreases slots.len(),
{
    let f = |c: Option<(ClientConfig, ClientState)>| client_view(c);
    if slots.len() > 0 {
        lemma_used_keys_view(slots.drop_last());
        assert(slots.map_values(f).drop_last() =~= slots.drop_last().map_values(f));
    }
}

/// What a [`ClientManager`] holds.
pub struct ManagerView {
    /// the clients by handle
    pub slots: Seq<Option<ClientView>>,
    /// the handles that will be used again, the next one last
    pub free: Seq<usize>,
    /// connected devices that are paired with no client
    pub parked: Map<Seq<char>, SocketAddr>,
}

impl ManagerView {
    /// A manager without clients.
    pub open spec fn empty() -> ManagerView {
        ManagerView { slots: seq![], free: seq![], parked: Map::empty() }
    }

    /// Handles to be used again are vacant and stand once, and every vacant
    /// handle is one.
    pub open spec fn wf(self) -> bool {
        &&& self.slots.len() <= usize::MAX
        &&& self.free.no_duplicates()
        &&& forall|i: int|
            0 <= i < self.free.len() ==> (#[trigger] self.free[i]) < self.slots.len()
                && self.slots[self.free[i] as int] is None
        &&& forall|i: int|
            0 <= i < self.slots.len() && (#[trigger] self.slots[i]) is None ==> self.free.contains(
                i as usize,
            )
    }

    /// How many clients there are.
    pub open spec fn count(self) -> nat {
        used_keys(self.slots).len()
    }

    /// There is room for `n` more clients.
    pub open spec fn room(self, n: nat) -> bool {
        self.count() + n <= MAX_CLIENTS
    }

    /// The client with handle `h`.
    pub open spec fn get(self, h: ClientHandle) -> Option<ClientView> {
        if slot(h) < self.slots.len() {
            self.slots[slot(h)]
        } else {
            None
        }
    }

    /// With `c` in place of the client with handle `h`, if there is one.
    pub open spec fn set(self, h: ClientHandle, c: ClientView) -> ManagerView {
        if self.get(h) is Some {
            ManagerView { slots: self.slots.update(slot(h), Some(c)), ..self }
        } else {
            self
        }
    }

    /// With another configuration of the client with handle `h`.
    pub open spec fn set_config(self, h: ClientHandle, config: ConfigView) -> ManagerView {
        match self.get(h) {
            Some(c) => self.set(h, ClientView { config, ..c }),
            None => self,
        }
    }

    /// With another state of the client with handle `h`.
    pub open spec fn set_state(self, h: ClientHandle, state: StateView) -> ManagerView {
        match self.get(h) {
            Some(c) => self.set(h, ClientView { state, ..c }),
            None => self,
        }
    }

    /// The handle of the next client.
    pub open spec fn next_handle(self) -> ClientHandle {
        next_key(self.slots, self.free) as u64
    }

    /// With one more client.
    pub open spec fn insert(self, c: ClientView) -> ManagerView {
        ManagerView {
            slots: slots_inserted(self.slots, self.free, c),
            free: free_used(self.free),
            ..self
        }
    }

    /// With one more client of which nothing is known.
    pub open spec fn add_client(self) -> ManagerView {
        self.insert(ClientView { config: default_config(), state: default_state() })
    }

    /// Without the client with handle `h`.
    pub open spec fn remove(self, h: ClientHandle) -> ManagerView {
        if self.get(h) is Some {
            ManagerView {
                slots: self.slots.update(slot(h), None),
                free: self.free.push(h as usize),
                ..self
            }
        } else {
            self
        }
    }

    /// The lowest handle whose client is one that is looked for.
    pub open spec fn first(self, q: QueryView) -> Option<ClientHandle> {
        first_match(self.slots, q)
    }

    /// All handles in ascending order.
    pub open spec fn handles(self) -> Seq<ClientHandle> {
        used_keys(self.slots).map_values(|k: usize| k as u64)
    }

    /// The handles of active clients in ascending order.
    pub open spec fn active_handles(self) -> Seq<ClientHandle> {
        self.handles().filter(|h: ClientHandle| self.slots[h as int]->0.state.active)
    }

    /// All clients in ascending order of their handles.
    pub open spec fn entries(self) -> Seq<(ClientHandle, ConfigView, StateView)> {
        self.handles().map_values(
            |h: ClientHandle|
                (h, self.slots[h as int]->0.config, self.slots[h as int]->0.state),
        )
    }

    /// The client with handle `h` made active, or not.
    pub open spec fn set_active(self, h: ClientHandle, active: bool) -> ManagerView {
        match self.get(h) {
            Some(c) => self.set_state(h, StateView { active, ..c.state }),
            None => self,
        }
    }

    /// Changing a client keeps the handles in order.
    pub proof fn lemma_set_wf(self, h: ClientHandle, c: ClientView)
        requires
            self.wf(),
        ensures
            self.set(h, c).wf(),
            self.set(h, c).slots.len() == self.slots.len(),
    {
    }

    /// Making a client active or not keeps the handles in order.
    pub proof fn lemma_set_active_wf(self, h: ClientHandle, active: bool)
        requires
            self.wf(),
        ensures
            self.set_active(h, active).wf(),
            self.set_active(h, active).slots.len() == self.slots.len(),
    {
    }

    /// Making a client active or not leaves as many clients.
    pub proof fn lemma_set_active_count(self, h: ClientHandle, active: bool)
        ensures
            self.set_active(h, active).count() == self.count(),
    {
        if let Some(c) = self.get(h) {
            let d = ClientView { state: StateView { active, ..c.state }, ..c };
            lemma_used_update(self.slots, slot(h), Some(d));
        }
    }

    /// Removing a client leaves no more of them.
    pub proof fn lemma_remove_count(self, h: ClientHandle)
        ensures
            self.remove(h).count() <= self.count(),
    {
        if let Some(c) = self.get(h) {
            lemma_used_update(self.slots, slot(h), None);
        }
    }

    /// A new client takes at most one new slot, stands under the handle that
    /// was announced, and leaves all others where they are.
    pub proof fn lemma_insert(self, c: ClientView)
        requires
            self.wf(),
            self.room(1),
        ensures
            self.insert(c).wf(),
            self.slots.len() <= self.insert(c).slots.len() <= self.slots.len() + 1,
            self.insert(c).count() == self.count() + 1,
            self.get(self.next_handle()) is None,
            self.insert(c).get(self.next_handle()) == Some(c),
            forall|h: ClientHandle|
                slot(h) != slot(self.next_handle()) ==> #[trigger] self.insert(c).get(h)
                    == self.get(h),
    {
        let v = self.insert(c);
        if self.free.len() > 0 {
            let k = self.free.last();
            assert(self.free[self.free.len() - 1] == k);
            assert forall|i: int| 0 <= i < v.free.len() implies (#[trigger] v.free[i])
                < v.slots.len() && v.slots[v.free[i] as int] is None by {
                assert(v.free[i] == self.free[i]);
                assert(self.free[i] != k);
            }
            assert forall|i: int| 0 <= i < v.slots.len() && (
            #[trigger] v.slots[i]) is None implies v.free.contains(i as usize) by {
                assert(self.slots[i] is None);
                let j = self.free.index_of(i as usize);
                assert(v.free[j] == i as usize);
            }
            lemma_used_update(self.slots, k as int, Some(c));
        } else {
            assert forall|i: int| 0 <= i < self.slots.len() implies (
            #[trigger] self.slots[i]) is Some by {
                if self.slots[i] is None {
                    assert(self.free.contains(i as usize));
                }
            }
            lemma_used_all(self.slots);
            assert(v.slots.drop_last() =~= self.slots);
        }
    }

    /// A client that is removed is gone, and leaves all others where they
    /// are.
    pub proof fn lemma_remove(self, h: ClientHandle)
        requires
            self.wf(),
        ensures
            self.remove(h).wf(),
            self.remove(h).slots.len() == self.slots.len(),
            self.remove(h).get(h) is None,
            forall|k: ClientHandle|
                slot(k) != slot(h) ==> #[trigger] self.remove(h).get(k) == self.get(k),
    {
        let v = self.remove(h);
        if self.get(h) is Some {
            assert forall|i: int| 0 <= i < v.free.len() implies (#[trigger] v.free[i])
                < v.slots.len() && v.slots[v.free[i] as int] is None by {
                if i < self.free.len() {
                    assert(v.free[i] == self.free[i]);
                }
            }
            assert forall|i: int, j: int| 0 <= i < j < v.free.len() implies v.free[i] != v.free[j] by {
                if j == self.free.len() {
                    assert(v.free[i] == self.free[i]);
                }
            }
            assert forall|i: int| 0 <= i < v.slots.len() && (
            #[trigger] v.slots[i]) is None implies v.free.contains(i as usize) by {
                if i == slot(h) {
                    assert(v.free[self.free.len() as int] == i as usize);
                } else {
                    assert(self.slots[i] is None);
                    let j = self.free.index_of(i as usize);
                    assert(v.free[j] == i as usize);
                }
            }
        }
    }

    /// Making a client what it is, or one that is not there, changes nothing.
    pub proof fn lemma_set_active_same(self, h: ClientHandle, active: bool)
        requires
            self.get(h) matches Some(c) ==> c.state.active == active,
        ensures
            self.set_active(h, active) == self,
    {
        if let Some(c) = self.get(h) {
            assert(self.set_active(h, active).slots =~= self.slots);
        }
    }

    /// The client with handle `h`, all of whose addresses are those that the
    /// user gave and those that were resolved.
    pub open spec fn update_ips(self, h: ClientHandle) -> ManagerView {
        match self.get(h) {
            Some(c) => self.set_state(
                h,
                StateView { ips: c.config.fix_ips.to_set() + c.state.dns_ips.to_set(), ..c.state },
            ),
            None => self,
        }
    }

    /// The client with handle `h` under another host name, with what was
    /// learned of the old one forgotten.
    pub open spec fn set_hostname(self, h: ClientHandle, hostname: Option<Seq<char>>) -> ManagerView {
        match self.get(h) {
            Some(c) => if c.config.hostname == hostname {
                self
            } else {
                self.set(
                    h,
                    ClientView {
                        config: ConfigView { hostname, ..c.config },
                        state: StateView {
                            active_addr: None,
                            dns_ips: seq![],
                            ips: c.config.fix_ips.to_set(),
                            ..c.state
                        },
                    },
                )
            },
            None => self,
        }
    }

    /// The client with handle `h` on another port, its connection's address
    /// included.
    pub open spec fn set_port(self, h: ClientHandle, port: u16) -> ManagerView {
        match self.get(h) {
            Some(c) => if c.config.port == port {
                self
            } else {
                self.set(
                    h,
                    ClientView {
                        config: ConfigView { port, ..c.config },
                        state: StateView {
                            active_addr: match c.state.active_addr {
                                Some(a) => Some(socket_addr(ip_of(a), port)),
                                None => None,
                            },
                            ..c.state
                        },
                    },
                )
            },
            None => self,
        }
    }

    /// The client with handle `h` at another edge.
    pub open spec fn set_pos(self, h: ClientHandle, pos: Position) -> ManagerView {
        match self.get(h) {
            Some(c) => self.set_config(h, ConfigView { pos, ..c.config }),
            None => self,
        }
    }

    /// No client, active or not, lies at the edge.
    pub open spec fn edge_free(self, pos: Position) -> bool {
        self.first(QueryView::At(pos)) is None
    }

    /// The first edge without a client: right, left, top, bottom.
    pub open spec fn first_free_position(self) -> Option<Position> {
        if self.edge_free(Position::Right) {
            Some(Position::Right)
        } else if self.edge_free(Position::Left) {
            Some(Position::Left)
        } else if self.edge_free(Position::Top) {
            Some(Position::Top)
        } else if self.edge_free(Position::Bottom) {
            Some(Position::Bottom)
        } else {
            None
        }
    }
}

/// What a client can be looked up by.
enum Query<'a> {
    Ip(IpAddr),
    Fingerprint(&'a str),
    ActiveAddr(SocketAddr),
    ActiveAt(Position),
    At(Position),
}

impl<'a> View for Query<'a> {
    type V = QueryView;

    closed spec fn view(&self) -> QueryView {
        match self {
            Query::Ip(ip) => QueryView::Ip(*ip),
            Query::Fingerprint(f) => QueryView::Fingerprint(f@),
            Query::ActiveAddr(addr) => QueryView::ActiveAddr(*addr),
            Query::ActiveAt(pos) => QueryView::ActiveAt(*pos),
            Query::At(pos) => QueryView::At(*pos),
        }
    }
}

/// A client as it stands in the configuration file.
#[derive(Debug)]
pub struct ConfigClient {
    pub ips: Vec<IpAddr>,
    pub hostname: Option<String>,
    pub port: u16,
    pub pos: Position,
    pub active: bool,
    pub enter_hook: Option<String>,
    pub fingerprint: Option<String>,
}

/// A client as it stands in the configuration file, as a value.
pub struct ConfigClientView {
    pub ips: Seq<IpAddr>,
    pub hostname: Option<Seq<char>>,
    pub port: u16,
    pub pos: Position,
    pub active: bool,
    pub enter_hook: Option<Seq<char>>,
    pub fingerprint: Option<Seq<char>>,
}

impl View for ConfigClient {
    type V = ConfigClientView;

    open spec fn view(&self) -> ConfigClientView {
        ConfigClientView {
            ips: self.ips@,
            hostname: opt_view(self.hostname),
            port: self.port,
            pos: self.pos,
            active: self.active,
            enter_hook: opt_view(self.enter_hook),
            fingerprint: opt_view(self.fingerprint),
        }
    }
}

impl Clone for ConfigClient {
    fn clone(&self) -> (r: ConfigClient)
        ensures
            r@ == self@,
    {
        ConfigClient {
            ips: crate::ipc::clone_ips(&self.ips),
            hostname: clone_opt(&self.hostname),
            port: self.port,
            pos: self.pos,
            active: self.active,
            enter_hook: clone_opt(&self.enter_hook),
            fingerprint: clone_opt(&self.fingerprint),
        }
    }
}

/// The client that a configuration file entry describes. An address that the
/// entry names more than once counts once.
pub open spec fn configured_client(c: ConfigClientView) -> ClientView {
    ClientView {
        config: ConfigView {
            hostname: c.hostname,
            fix_ips: distinct_ips(c.ips),
            port: c.port,
            pos: c.pos,
            cmd: c.enter_hook,
            fingerprint: c.fingerprint,
        },
        state: StateView { active: c.active, ips: c.ips.to_set(), ..default_state() },
    }
}

/// The slot a handle stands for.
fn key_of(handle: ClientHandle) -> (key: usize)
    ensures
        key == slot(handle),
{
    #[verifier::truncate]
    let key: usize = handle as usize;
    key
}

/// The clients a server knows, and the devices that wait to become one.
pub struct ClientManager {
    clients: Slab<(ClientConfig, ClientState)>,
    /// Authorized devices that connected but are paired with no client yet:
    /// fingerprint and source address. Such a connection stays up, but the
    /// device cannot be entered until it is assigned a position, which
    /// binds the fingerprint to a client.
    parked: TextMap<SocketAddr>,
}

impl View for ClientManager {
    type V = ManagerView;

    closed spec fn view(&self) -> ManagerView {
        ManagerView {
            slots: slab_slots(self.clients).map_values(
                |c: Option<(ClientConfig, ClientState)>| client_view(c),
            ),
            free: slab_free(self.clients),
            parked: self.parked@,
        }
    }
}

impl Default for ClientManager {
    fn default() -> (m: ClientManager)
        ensures
            m@ == ManagerView::empty(),
    {
        let m = ClientManager { clients: slab_new(), parked: TextMap::new() };
        assert(m@.slots =~= ManagerView::empty().slots);
        assert(m@.free =~= ManagerView::empty().free);
        m
    }
}

/// Whether `n` more clients fit beside `clients` of them.
pub fn fits(clients: usize, n: usize) -> (b: bool)
    ensures
        b == (clients + n <= MAX_CLIENTS),
{
    clients <= MAX_CLIENTS && n <= MAX_CLIENTS - clients
}

impl ClientManager {
    /// Whether there is room for `n` more clients.
    pub fn has_room(&self, n: usize) -> (b: bool)
        ensures
            b == self@.room(n as nat),
    {
        proof {
            lemma_used_keys_view(slab_slots(self.clients));
        }
        fits(slab_len(&self.clients), n)
    }

    /// The keys in use, in ascending order.
    fn keys(&self) -> (keys: Vec<usize>)
        ensures
            keys@ == used_keys(self@.slots),
            forall|i: int|
                0 <= i < keys@.len() ==> (#[trigger] keys@[i]) < self@.slots.len()
                    && self@.slots[keys@[i] as int] is Some,
            forall|i: int, j: int| 0 <= i < j < keys@.len() ==> keys@[i] < keys@[j],
            forall|k: int|
                0 <= k < self@.slots.len() && (#[trigger] self@.slots[k]) is Some
                    ==> keys@.contains(k as usize),
            self@.slots.len() <= usize::MAX,
    {
        let cap: usize = slab_capacity(&self.clients);
        let keys = slab_keys(&self.clients);
        proof {
            lemma_used_keys_view(slab_slots(self.clients));
            lemma_used_keys(self@.slots);
        }
        keys
    }

    /// The client under a key in use.
    fn client(&self, key: usize) -> (c: &(ClientConfig, ClientState))
        requires
            key < self@.slots.len(),
            self@.slots[key as int] is Some,
        ensures
            client_view(Some(*c)) == self@.slots[key as int],
    {
        match slab_get(&self.clients, key) {
            Some(c) => c,
            None => {
                assert(false);
                unreached()
            },
        }
    }

    /// The client with a handle.
    fn lookup(&self, handle: ClientHandle) -> (c: Option<&(ClientConfig, ClientState)>)
        ensures
            match c {
                Some(c) => client_view(Some(*c)) == self@.get(handle),
                None => self@.get(handle) is None,
            },
    {
        slab_get(&self.clients, key_of(handle))
    }

    /// The lowest handle whose client is one that is looked for.
    fn find(&self, q: Query<'_>) -> (r: Option<ClientHandle>)
        ensures
            r == self@.first(q@),
    {
        let keys = self.keys();
        proof {
            lemma_first_match(self@.slots, q@);
        }
        let mut i: usize = 0;
        while i < keys.len()
            invariant
                i <= keys@.len(),
                keys@ == used_keys(self@.slots),
                self@.slots.len() <= usize::MAX,
                is_first(self@.slots, q@, self@.first(q@)),
                forall|i: int|
                    0 <= i < keys@.len() ==> (#[trigger] keys@[i]) < self@.slots.len()
                        && self@.slots[keys@[i] as int] is Some,
                forall|i: int, j: int| 0 <= i < j < keys@.len() ==> keys@[i] < keys@[j],
                forall|k: int|
                    0 <= k < self@.slots.len() && (#[trigger] self@.slots[k]) is Some
                        ==> keys@.contains(k as usize),
                forall|j: int|
                    0 <= j < i ==> !matches_query(q@, self@.slots[#[trigger] keys@[j] as int]->0),
            decreases keys@.len() - i,
        {
            let key: usize = keys[i];
            let c = self.client(key);
            let hit: bool = match &q {
                Query::Ip(ip) => c.1.active && c.1.ips.contains(*ip),
                Query::Fingerprint(f) => opt_is(&c.0.fingerprint, f),
                Query::ActiveAddr(addr) => c.1.active_addr == Some(*addr),
                Query::ActiveAt(pos) => c.1.active && c.0.pos == *pos,
                Query::At(pos) => c.0.pos == *pos,
            };
            if hit {
                proof {
                    let r = Some(key as u64);
                    assert forall|k: int| 0 <= k < key implies ((#[trigger] self@.slots[k]) matches Some(
                        c,
                    ) ==> !matches_query(q@, c)) by {
                        if self@.slots[k] is Some {
                            let j = choose|j: int| 0 <= j < keys@.len() && keys@[j] == k as usize;
                            if j > i {
                                assert(keys@[i as int] < keys@[j]);
                            }
                        }
                    }
                    assert(is_first(self@.slots, q@, r));
                    lemma_first_unique(self@.slots, q@, r, self@.first(q@));
                }
                return Some(key as u64);
            }
            i = i + 1;
        }
        proof {
            assert forall|k: int| 0 <= k < self@.slots.len() implies ((
            #[trigger] self@.slots[k]) matches Some(c) ==> !matches_query(q@, c)) by {
                if self@.slots[k] is Some {
                    let j = choose|j: int| 0 <= j < keys@.len() && keys@[j] == k as usize;
                    assert(keys@[j] == k as usize);
                }
            }
            lemma_first_unique(self@.slots, q@, None, self@.first(q@));
        }
        None
    }

    /// Adds the client that a configuration file entry describes.
    pub fn add_with_config(&mut self, config_client: ConfigClient) -> (handle: ClientHandle)
        requires
            old(self)@.room(1),
        ensures
            handle == old(self)@.next_handle(),
            final(self)@ == old(self)@.insert(configured_client(config_client@)),
            final(self)@.get(handle) == Some(configured_client(config_client@)),
            final(self)@.count() <= old(self)@.count() + 1,
    {
        let mut ips = IpSet::new();
        ips.insert_all(&config_client.ips);
        assert(ips@ =~= config_client.ips@.to_set());
        let config = ClientConfig {
            hostname: config_client.hostname,
            fix_ips: dedup_ips(&config_client.ips),
            port: config_client.port,
            pos: config_client.pos,
            cmd: config_client.enter_hook,
            fingerprint: config_client.fingerprint,
        };
        let state = ClientState { active: config_client.active, ips, ..ClientState::default() };
        self.insert(config, state)
    }

    /// Adds a client.
    fn insert(&mut self, config: ClientConfig, state: ClientState) -> (handle: ClientHandle)
        requires
            old(self)@.room(1),
        ensures
            handle == old(self)@.next_handle(),
            final(self)@ == old(self)@.insert(ClientView { config: config@, state: state@ }),
            final(self)@.get(handle) == Some(ClientView { config: config@, state: state@ }),
            final(self)@.count() <= old(self)@.count() + 1,
    {
        proof {
            lemma_used_keys_view(slab_slots(self.clients));
        }
        let key: usize = slab_insert(&mut self.clients, (config, state));
        proof {
            let c = ClientView { config: config@, state: state@ };
            let free = slab_free(old(self).clients);
            assert(client_view(Some((config, state))) == Some(c));
            if free.len() == 0 {
                assert(self@.slots =~= old(self)@.slots.push(Some(c)));
                assert(self@.slots.drop_last() =~= old(self)@.slots);
            } else {
                assert(self@.slots =~= old(self)@.slots.update(free.last() as int, Some(c)));
                lemma_used_update(old(self)@.slots, free.last() as int, Some(c));
            }
        }
        key as u64
    }

    /// Adds a client of which nothing is known yet.
    pub fn add_client(&mut self) -> (handle: ClientHandle)
        requires
            old(self)@.room(1),
        ensures
            handle == old(self)@.next_handle(),
            final(self)@ == old(self)@.add_client(),
    {
        self.insert(ClientConfig::default(), ClientState::default())
    }

    /// Sets the configuration of a client.
    pub fn set_config(&mut self, handle: ClientHandle, config: ClientConfig)
        ensures
            final(self)@ == (match old(self)@.get(handle) {
                Some(c) => old(self)@.set(handle, ClientView { config: config@, ..c }),
                None => old(self)@,
            }),
    {
        let key: usize = key_of(handle);
        if let Some(c) = slab_get_mut(&mut self.clients, key) {
            c.0 = config;
        }
        assert(self@.slots =~= (match old(self)@.get(handle) {
            Some(c) => old(self)@.set(handle, ClientView { config: config@, ..c }),
            None => old(self)@,
        }).slots);
    }

    /// Sets the state of a client.
    pub fn set_state(&mut self, handle: ClientHandle, state: ClientState)
        ensures
            final(self)@ == (match old(self)@.get(handle) {
                Some(c) => old(self)@.set(handle, ClientView { state: state@, ..c }),
                None => old(self)@,
            }),
    {
        let key: usize = key_of(handle);
        if let Some(c) = slab_get_mut(&mut self.clients, key) {
            c.1 = state;
        }
        assert(self@.slots =~= (match old(self)@.get(handle) {
            Some(c) => old(self)@.set(handle, ClientView { state: state@, ..c }),
            None => old(self)@,
        }).slots);
    }

    /// Activates a client. Tells whether it was not active before.
    pub fn activate_client(&mut self, handle: ClientHandle) -> (changed: bool)
        ensures
            final(self)@ == old(self)@.set_active(handle, true),
            changed == (old(self)@.get(handle) matches Some(c) && !c.state.active),
    {
        let key: usize = key_of(handle);
        let mut changed: bool = false;
        if let Some(c) = slab_get_mut(&mut self.clients, key) {
            if !c.1.active {
                c.1.active = true;
                changed = true;
            }
        }
        assert(self@.slots =~= old(self)@.set_active(handle, true).slots);
        changed
    }

    /// Deactivates a client. Tells whether it was active before.
    pub fn deactivate_client(&mut self, handle: ClientHandle) -> (changed: bool)
        ensures
            final(self)@ == old(self)@.set_active(handle, false),
            changed == (old(self)@.get(handle) matches Some(c) && c.state.active),
    {
        let key: usize = key_of(handle);
        let mut changed: bool = false;
        if let Some(c) = slab_get_mut(&mut self.clients, key) {
            if c.1.active {
                c.1.active = false;
                changed = true;
            }
        }
        assert(self@.slots =~= old(self)@.set_active(handle, false).slots);
        changed
    }

    /// Finds an active client by its address.
    pub fn get_client(&self, addr: SocketAddr) -> (r: Option<ClientHandle>)
        ensures
            r == self@.first(QueryView::Ip(ip_of(addr))),
    {
        self.find(Query::Ip(addr.ip()))
    }

    /// Finds a client by the fingerprint it is paired with, the stable
    /// identity of an incoming connection.
    pub fn get_client_by_fingerprint(&self, fingerprint: &str) -> (r: Option<ClientHandle>)
        ensures
            r == self@.first(QueryView::Fingerprint(fingerprint@)),
    {
        self.find(Query::Fingerprint(fingerprint))
    }

    /// Finds a client by the address its accepted connection comes from.
    pub fn get_client_by_active_addr(&self, addr: SocketAddr) -> (r: Option<ClientHandle>)
        ensures
            r == self@.first(QueryView::ActiveAddr(addr)),
    {
        self.find(Query::ActiveAddr(addr))
    }

    /// Remembers a connected device that is paired with no client.
    pub fn park(&mut self, fingerprint: String, addr: SocketAddr)
        ensures
            final(self)@ == (ManagerView {
                parked: old(self)@.parked.insert(fingerprint@, addr),
                ..old(self)@
            }),
    {
        self.parked.insert(fingerprint, addr);
    }

    /// Takes the address of a waiting device, if it is connected.
    pub fn unpark(&mut self, fingerprint: &str) -> (r: Option<SocketAddr>)
        ensures
            final(self)@ == (ManagerView {
                parked: old(self)@.parked.remove(fingerprint@),
                ..old(self)@
            }),
            r == if old(self)@.parked.contains_key(fingerprint@) {
                Some(old(self)@.parked[fingerprint@])
            } else {
                None
            },
    {
        self.parked.remove(fingerprint)
    }

    /// Forgets a waiting device by the address of its connection. Gives its
    /// fingerprint if the address was that of one.
    pub fn unpark_addr(&mut self, addr: SocketAddr) -> (r: Option<String>)
        ensures
            match r {
                Some(f) => old(self)@.parked.contains_key(f@) && old(self)@.parked[f@] == addr
                    && final(self)@ == (ManagerView {
                    parked: old(self)@.parked.remove(f@),
                    ..old(self)@
                }),
                None => final(self)@ == old(self)@ && !old(self)@.parked.contains_value(addr),
            },
    {
        let mut i: usize = 0;
        let mut found: Option<String> = None;
        let n: usize = self.parked.len();
        while i < n && found.is_none()
            invariant
                i <= n,
                n == self.parked.entries_view().len(),
                match found {
                    Some(f) => self@.parked.contains_key(f@) && self@.parked[f@] == addr,
                    None => forall|j: int|
                        0 <= j < i ==> self@.parked[(#[trigger] self.parked.entries_view()[j]).0@]
                            != addr,
                },
                *self == *old(self),
            decreases n - i,
        {
            let (f, a) = self.parked.entry(i);
            if *a == addr {
                found = Some(f.clone());
            }
            i = i + 1;
        }
        match found {
            Some(f) => {
                let _ = self.parked.remove(f.as_str());
                Some(f)
            },
            None => {
                proof {
                    if self@.parked.contains_value(addr) {
                        let k = choose|k: Seq<char>|
                            self@.parked.contains_key(k) && self@.parked[k] == addr;
                        self.parked.lemma_key_has_entry(k);
                    }
                }
                None
            },
        }
    }

    /// Finds the active client at an edge.
    pub fn client_at(&self, pos: Position) -> (r: Option<ClientHandle>)
        ensures
            r == self@.first(QueryView::ActiveAt(pos)),
    {
        self.find(Query::ActiveAt(pos))
    }

    /// The first edge without a client, in the order in which devices are
    /// paired: right, left, top, bottom. A client blocks its edge whether or
    /// not it is active.
    pub fn first_free_position(&self) -> (r: Option<Position>)
        ensures
            r == self@.first_free_position(),
    {
        if self.find(Query::At(Position::Right)).is_none() {
            Some(Position::Right)
        } else if self.find(Query::At(Position::Left)).is_none() {
            Some(Position::Left)
        } else if self.find(Query::At(Position::Top)).is_none() {
            Some(Position::Top)
        } else if self.find(Query::At(Position::Bottom)).is_none() {
            Some(Position::Bottom)
        } else {
            None
        }
    }

    /// The host name of a client.
    pub fn get_hostname(&self, handle: ClientHandle) -> (r: Option<String>)
        ensures
            opt_view(r) == (match self@.get(handle) {
                Some(c) => c.config.hostname,
                None => None,
            }),
    {
        match self.lookup(handle) {
            Some(c) => clone_opt(&c.0.hostname),
            None => None,
        }
    }

    /// The edge of a client.
    pub fn get_pos(&self, handle: ClientHandle) -> (r: Option<Position>)
        ensures
            r == (match self@.get(handle) {
                Some(c) => Some(c.config.pos),
                None => None,
            }),
    {
        match self.lookup(handle) {
            Some(c) => Some(c.0.pos),
            None => None,
        }
    }

    /// Removes a client.
    pub fn remove_client(&mut self, client: ClientHandle) -> (r: Option<(ClientConfig, ClientState)>)
        ensures
            client_view(r) == old(self)@.get(client),
            final(self)@ == old(self)@.remove(client),
    {
        let r = slab_try_remove(&mut self.clients, key_of(client));
        assert(self@.slots =~= old(self)@.remove(client).slots);
        r
    }

    /// The configuration and state of a client.
    pub fn get_state(&self, handle: ClientHandle) -> (r: Option<(ClientConfig, ClientState)>)
        ensures
            client_view(r) == self@.get(handle),
    {
        match self.lookup(handle) {
            Some(c) => Some((c.0.clone(), c.1.clone())),
            None => None,
        }
    }

    /// The configuration and state of all clients.
    pub fn get_client_states(&self) -> (r: Vec<(ClientHandle, ClientConfig, ClientState)>)
        ensures
            crate::ipc::entry_views(r@) == self@.entries(),
    {
        let keys = self.keys();
        let mut r: Vec<(ClientHandle, ClientConfig, ClientState)> = Vec::new();
        let mut i: usize = 0;
        while i < keys.len()
            invariant
                i <= keys@.len(),
                keys@ == used_keys(self@.slots),
                forall|i: int|
                    0 <= i < keys@.len() ==> (#[trigger] keys@[i]) < self@.slots.len()
                        && self@.slots[keys@[i] as int] is Some,
                r@.len() == i,
                forall|j: int|
                    0 <= j < i ==> ((#[trigger] r@[j]).0, r@[j].1@, r@[j].2@)
                        == self@.entries()[j],
            decreases keys@.len() - i,
        {
            let c = self.client(keys[i]);
            r.push((keys[i] as u64, c.0.clone(), c.1.clone()));
            i = i + 1;
        }
        assert(crate::ipc::entry_views(r@) =~= self@.entries());
        r
    }

    /// The configuration and state of all clients, without their handles.
    pub fn clients(&self) -> (r: Vec<(ClientConfig, ClientState)>)
        ensures
            r@.map_values(|c: (ClientConfig, ClientState)| (c.0@, c.1@)) == self@.entries().map_values(
                |e: (ClientHandle, ConfigView, StateView)| (e.1, e.2),
            ),
    {
        let keys = self.keys();
        let mut r: Vec<(ClientConfig, ClientState)> = Vec::new();
        let mut i: usize = 0;
        while i < keys.len()
            invariant
                i <= keys@.len(),
                keys@ == used_keys(self@.slots),
                forall|i: int|
                    0 <= i < keys@.len() ==> (#[trigger] keys@[i]) < self@.slots.len()
                        && self@.slots[keys@[i] as int] is Some,
                r@.len() == i,
                forall|j: int|
                    0 <= j < i ==> ((#[trigger] r@[j]).0@, r@[j].1@) == (
                        self@.entries()[j].1,
                        self@.entries()[j].2,
                    ),
            decreases keys@.len() - i,
        {
            let c = self.client(keys[i]);
            r.push((c.0.clone(), c.1.clone()));
            i = i + 1;
        }
        assert(r@.map_values(|c: (ClientConfig, ClientState)| (c.0@, c.1@))
            =~= self@.entries().map_values(
            |e: (ClientHandle, ConfigView, StateView)| (e.1, e.2),
        ));
        r
    }

    /// Updates the fixed addresses of a client.
    pub fn set_fix_ips(&mut self, handle: ClientHandle, fix_ips: Vec<IpAddr>)
        ensures
            final(self)@ == (match old(self)@.get(handle) {
                Some(c) => old(self)@.set_config(
                    handle,
                    ConfigView { fix_ips: fix_ips@, ..c.config },
                ).update_ips(handle),
                None => old(self)@,
            }),
    {
        let key: usize = key_of(handle);
        if let Some(c) = slab_get_mut(&mut self.clients, key) {
            c.0.fix_ips = fix_ips;
        }
        let ghost mid = self@;
        assert(mid.slots =~= (match old(self)@.get(handle) {
            Some(c) => old(self)@.set_config(handle, ConfigView { fix_ips: fix_ips@, ..c.config }),
            None => old(self)@,
        }).slots);
        self.update_ips(handle);
    }

    /// Updates the resolved addresses of a client.
    pub fn set_dns_ips(&mut self, handle: ClientHandle, dns_ips: Vec<IpAddr>)
        ensures
            final(self)@ == (match old(self)@.get(handle) {
                Some(c) => old(self)@.set_state(
                    handle,
                    StateView { dns_ips: dns_ips@, ..c.state },
                ).update_ips(handle),
                None => old(self)@,
            }),
    {
        let key: usize = key_of(handle);
        if let Some(c) = slab_get_mut(&mut self.clients, key) {
            c.1.dns_ips = dns_ips;
        }
        let ghost mid = self@;
        assert(mid.slots =~= (match old(self)@.get(handle) {
            Some(c) => old(self)@.set_state(handle, StateView { dns_ips: dns_ips@, ..c.state }),
            None => old(self)@,
        }).slots);
        self.update_ips(handle);
    }

    /// Makes the addresses of a client those that the user gave and those
    /// that were resolved.
    fn update_ips(&mut self, handle: ClientHandle)
        ensures
            final(self)@ == old(self)@.update_ips(handle),
    {
        let key: usize = key_of(handle);
        if let Some(c) = slab_get_mut(&mut self.clients, key) {
            let mut ips = IpSet::new();
            ips.insert_all(&c.0.fix_ips);
            ips.insert_all(&c.1.dns_ips);
            assert(ips@ =~= c.0.fix_ips@.to_set() + c.1.dns_ips@.to_set());
            c.1.ips = ips;
        }
        assert(self@.slots =~= old(self)@.update_ips(handle).slots);
    }

    /// Updates the host name of a client. A change clears the address of its
    /// connection and its resolved addresses. Tells whether it changed.
    pub fn set_hostname(&mut self, handle: ClientHandle, hostname: Option<String>) -> (changed: bool)
        ensures
            final(self)@ == old(self)@.set_hostname(handle, opt_view(hostname)),
            changed == (old(self)@.get(handle) matches Some(c) && c.config.hostname != opt_view(
                hostname,
            )),
    {
        let key: usize = key_of(handle);
        let ghost name = opt_view(hostname);
        let mut changed: bool = false;
        if let Some(c) = slab_get_mut(&mut self.clients, key) {
            if !same_opt(&c.0.hostname, &hostname) {
                c.0.hostname = hostname;
                c.1.active_addr = None;
                c.1.dns_ips = Vec::new();
                changed = true;
            }
        }
        if changed {
            self.update_ips(handle);
            proof {
                let c = old(self)@.get(handle)->0;
                let none: Seq<IpAddr> = seq![];
                assert(c.config.fix_ips.to_set() + none.to_set() =~= c.config.fix_ips.to_set());
                assert(Seq::<IpAddr>::empty() =~= none);
            }
        }
        assert(self@.slots =~= old(self)@.set_hostname(handle, name).slots);
        changed
    }

    /// Updates the port of a client.
    pub fn set_port(&mut self, handle: ClientHandle, port: u16)
        ensures
            final(self)@ == old(self)@.set_port(handle, port),
    {
        let key: usize = key_of(handle);
        if let Some(c) = slab_get_mut(&mut self.clients, key) {
            if c.0.port != port {
                c.0.port = port;
                c.1.active_addr = match c.1.active_addr {
                    Some(a) => Some(SocketAddr::new(a.ip(), port)),
                    None => None,
                };
            }
        }
        assert(self@.slots =~= old(self)@.set_port(handle, port).slots);
    }

    /// Updates the edge of a client. Tells whether the capture has to move:
    /// the edge changed and the client is active.
    pub fn set_pos(&mut self, handle: ClientHandle, pos: Position) -> (moved: bool)
        ensures
            final(self)@ == old(self)@.set_pos(handle, pos),
            moved == (old(self)@.get(handle) matches Some(c) && c.config.pos != pos
                && c.state.active),
    {
        let key: usize = key_of(handle);
        let mut moved: bool = false;
        if let Some(c) = slab_get_mut(&mut self.clients, key) {
            if c.0.pos != pos {
                c.0.pos = pos;
                moved = c.1.active;
            }
        }
        assert(self@.slots =~= old(self)@.set_pos(handle, pos).slots);
        moved
    }

    /// Updates the hook command of a client.
    pub fn set_enter_hook(&mut self, handle: ClientHandle, enter_hook: Option<String>)
        ensures
            final(self)@ == (match old(self)@.get(handle) {
                Some(c) => old(self)@.set_config(handle, ConfigView { cmd: opt_view(enter_hook), ..c.config }),
                None => old(self)@,
            }),
    {
        let key: usize = key_of(handle);
        if let Some(c) = slab_get_mut(&mut self.clients, key) {
            c.0.cmd = enter_hook;
        }
        assert(self@.slots =~= (match old(self)@.get(handle) {
            Some(c) => old(self)@.set_config(handle, ConfigView { cmd: opt_view(enter_hook), ..c.config }),
            None => old(self)@,
        }).slots);
    }

    /// Notes whether a client's host name is being resolved.
    pub fn set_resolving(&mut self, handle: ClientHandle, status: bool)
        ensures
            final(self)@ == (match old(self)@.get(handle) {
                Some(c) => old(self)@.set_state(handle, StateView { resolving: status, ..c.state }),
                None => old(self)@,
            }),
    {
        let key: usize = key_of(handle);
        if let Some(c) = slab_get_mut(&mut self.clients, key) {
            c.1.resolving = status;
        }
        assert(self@.slots =~= (match old(self)@.get(handle) {
            Some(c) => old(self)@.set_state(handle, StateView { resolving: status, ..c.state }),
            None => old(self)@,
        }).slots);
    }

    /// The hook command of a client.
    pub fn get_enter_cmd(&self, handle: ClientHandle) -> (r: Option<String>)
        ensures
            opt_view(r) == (match self@.get(handle) {
                Some(c) => c.config.cmd,
                None => None,
            }),
    {
        match self.lookup(handle) {
            Some(c) => clone_opt(&c.0.cmd),
            None => None,
        }
    }

    /// The handles of all clients.
    pub fn registered_clients(&self) -> (r: Vec<ClientHandle>)
        ensures
            r@ == self@.handles(),
            self@.slots.len() <= usize::MAX,
    {
        let keys = self.keys();
        let mut r: Vec<ClientHandle> = Vec::new();
        let mut i: usize = 0;
        while i < keys.len()
            invariant
                i <= keys@.len(),
                keys@ == used_keys(self@.slots),
                r@.len() == i,
                forall|j: int| 0 <= j < i ==> (#[trigger] r@[j]) == self@.handles()[j],
            decreases keys@.len() - i,
        {
            r.push(keys[i] as u64);
            i = i + 1;
        }
        assert(r@ =~= self@.handles());
        r
    }

    /// The handles of all active clients.
    pub fn active_clients(&self) -> (r: Vec<ClientHandle>)
        ensures
            r@ == self@.active_handles(),
    {
        let keys = self.keys();
        let mut r: Vec<ClientHandle> = Vec::new();
        let mut i: usize = 0;
        let ghost all = self@.handles();
        let ghost active = |h: ClientHandle| self@.slots[h as int]->0.state.active;
        proof {
            reveal(Seq::filter);
            assert(all.take(0).filter(active) =~= seq![]);
        }
        while i < keys.len()
            invariant
                i <= keys@.len(),
                keys@ == used_keys(self@.slots),
                all == self@.handles(),
                active == (|h: ClientHandle| self@.slots[h as int]->0.state.active),
                forall|i: int|
                    0 <= i < keys@.len() ==> (#[trigger] keys@[i]) < self@.slots.len()
                        && self@.slots[keys@[i] as int] is Some,
                r@ == all.take(i as int).filter(active),
            decreases keys@.len() - i,
        {
            let c = self.client(keys[i]);
            proof {
                reveal(Seq::filter);
                assert(all.take(i + 1).drop_last() =~= all.take(i as int));
                assert(all.take(i + 1).last() == keys@[i as int] as u64);
            }
            if c.1.active {
                r.push(keys[i] as u64);
            }
            i = i + 1;
        }
        assert(all.take(i as int) =~= all);
        r
    }

    /// Notes where a client's accepted connection comes from.
    pub fn set_active_addr(&mut self, handle: ClientHandle, addr: Option<SocketAddr>)
        ensures
            final(self)@ == (match old(self)@.get(handle) {
                Some(c) => old(self)@.set_state(handle, StateView { active_addr: addr, ..c.state }),
                None => old(self)@,
            }),
    {
        let key: usize = key_of(handle);
        if let Some(c) = slab_get_mut(&mut self.clients, key) {
            c.1.active_addr = addr;
        }
        assert(self@.slots =~= (match old(self)@.get(handle) {
            Some(c) => old(self)@.set_state(handle, StateView { active_addr: addr, ..c.state }),
            None => old(self)@,
        }).slots);
    }

    /// Notes whether a client is available for emulation.
    pub fn set_alive(&mut self, handle: ClientHandle, alive: bool)
        ensures
            final(self)@ == (match old(self)@.get(handle) {
                Some(c) => old(self)@.set_state(handle, StateView { alive, ..c.state }),
                None => old(self)@,
            }),
    {
        let key: usize = key_of(handle);
        if let Some(c) = slab_get_mut(&mut self.clients, key) {
            c.1.alive = alive;
        }
        assert(self@.slots =~= (match old(self)@.get(handle) {
            Some(c) => old(self)@.set_state(handle, StateView { alive, ..c.state }),
            None => old(self)@,
        }).slots);
    }

    /// Notes the build of a client.
    pub fn set_peer_commit(&mut self, handle: ClientHandle, commit: Option<[u8; 8]>)
        ensures
            final(self)@ == (match old(self)@.get(handle) {
                Some(c) => old(self)@.set_state(handle, StateView { peer_commit: commit, ..c.state }),
                None => old(self)@,
            }),
    {
        let key: usize = key_of(handle);
        if let Some(c) = slab_get_mut(&mut self.clients, key) {
            c.1.peer_commit = commit;
        }
        assert(self@.slots =~= (match old(self)@.get(handle) {
            Some(c) => old(self)@.set_state(handle, StateView { peer_commit: commit, ..c.state }),
            None => old(self)@,
        }).slots);
    }

    /// Where a client's accepted connection comes from.
    pub fn active_addr(&self, handle: ClientHandle) -> (r: Option<SocketAddr>)
        ensures
            r == (match self@.get(handle) {
                Some(c) => c.state.active_addr,
                None => None,
            }),
    {
        match self.lookup(handle) {
            Some(c) => c.1.active_addr,
            None => None,
        }
    }

    /// Whether a client is available for emulation.
    pub fn alive(&self, handle: ClientHandle) -> (r: bool)
        ensures
            r == (self@.get(handle) matches Some(c) && c.state.alive),
    {
        match self.lookup(handle) {
            Some(c) => c.1.alive,
            None => false,
        }
    }
}

/// The edge that is proposed for pairing is one without any client, active or
/// not, and none that comes before it in the order right, left, top, bottom
/// is; none is proposed only where every edge has a client.
pub proof fn lemma_first_free_position(m: ManagerView)
    requires
        m.wf(),
    ensures
        forall|pos: Position| #[trigger]
            m.edge_free(pos) <==> forall|i: int|
                0 <= i < m.slots.len() ==> ((#[trigger] m.slots[i]) matches Some(c)
                    ==> c.config.pos != pos),
        m.first_free_position() matches Some(pos) ==> m.edge_free(pos),
        m.first_free_position() is None <==> forall|pos: Position| !#[trigger] m.edge_free(pos),
        m.edge_free(Position::Right) ==> m.first_free_position() == Some(Position::Right),
{
    assert forall|pos: Position| #[trigger]
        m.edge_free(pos) <==> forall|i: int|
            0 <= i < m.slots.len() ==> ((#[trigger] m.slots[i]) matches Some(c) ==> c.config.pos
                != pos) by {
        lemma_first_match(m.slots, QueryView::At(pos));
        if let Some(h) = m.first(QueryView::At(pos)) {
            assert(m.slots[h as int] is Some);
        }
    }
    if m.first_free_position() is None {
        assert forall|pos: Position| !#[trigger] m.edge_free(pos) by {
            match pos {
                Position::Left => {},
                Position::Right => {},
                Position::Top => {},
                Position::Bottom => {},
            }
        }
    }
}

/// A client that is paired is found by its fingerprint, and one found so is
/// paired with it.
pub proof fn lemma_fingerprint_lookup(m: ManagerView, f: Seq<char>, h: ClientHandle)
    requires
        m.wf(),
    ensures
        m.first(QueryView::Fingerprint(f)) == Some(h) ==> (m.get(h) matches Some(c)
            && c.config.fingerprint == Some(f)),
        (m.get(h) matches Some(c) && c.config.fingerprint == Some(f)) ==> m.first(
            QueryView::Fingerprint(f),
        ) is Some,
{
    lemma_first_match(m.slots, QueryView::Fingerprint(f));
    if let Some(c) = m.get(h) {
        assert(m.slots[slot(h)] is Some);
    }
}

/// A connection's address leads to the client it is bound to, until it is
/// unbound.
pub proof fn lemma_active_addr_lookup(m: ManagerView, addr: SocketAddr, h: ClientHandle)
    requires
        m.wf(),
        m.get(h) is Some,
        m.first(QueryView::ActiveAddr(addr)) is None,
    ensures
        ({
            let c = m.get(h)->0;
            let bound = m.set_state(h, StateView { active_addr: Some(addr), ..c.state });
            &&& bound.first(QueryView::ActiveAddr(addr)) == Some(slot(h) as u64)
            &&& bound.set_state(h, StateView { active_addr: None, ..c.state }).first(
                QueryView::ActiveAddr(addr),
            ) is None
        }),
{
    let c = m.get(h)->0;
    let q = QueryView::ActiveAddr(addr);
    let bound = m.set_state(h, StateView { active_addr: Some(addr), ..c.state });
    let gone = bound.set_state(h, StateView { active_addr: None, ..c.state });
    lemma_first_match(m.slots, q);
    lemma_first_match(bound.slots, q);
    lemma_first_match(gone.slots, q);
    assert forall|k: int| 0 <= k < m.slots.len() && k != slot(h) implies bound.slots[k] == m.slots[k]
        && gone.slots[k] == m.slots[k] by {}
    assert(bound.slots[slot(h)] is Some);
    match bound.first(q) {
        Some(x) => {
            assert(m.slots[x as int] is Some);
        },
        None => {},
    }
    if let Some(x) = gone.first(q) {
        assert(gone.slots[x as int] is Some);
        assert(m.slots[x as int] is Some);
    }
}

} // verus!
