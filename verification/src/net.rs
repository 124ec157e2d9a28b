//! Network addresses as plain values.

pub mod laws;

use crate::text::{decimal, decimal_text};
use vstd::prelude::*;

verus! {

/// An IP address as the number its bytes spell in network order.
#[derive(Clone, Copy, Debug, PartialEq, Eq, Hash, Structural)]
pub enum IpAddr {
    V4(u32),
    V6(u128),
}

/// A socket address. Two version 6 addresses are the same only if their flow
/// information and scope are.
#[allow(inconsistent_fields)]
#[derive(Clone, Copy, Debug, PartialEq, Eq, Hash, Structural)]
pub enum SocketAddr {
    V4 { ip: u32, port: u16 },
    V6 { ip: u128, port: u16, flowinfo: u32, scope_id: u32 },
}

/// The address part of a socket address.
pub open spec fn ip_of(addr: SocketAddr) -> IpAddr {
    match addr {
        SocketAddr::V4 { ip, .. } => IpAddr::V4(ip),
        SocketAddr::V6 { ip, .. } => IpAddr::V6(ip),
    }
}

/// The socket address made of an address and a port alone.
pub open spec fn socket_addr(ip: IpAddr, port: u16) -> SocketAddr {
    match ip {
        IpAddr::V4(ip) => SocketAddr::V4 { ip, port },
        IpAddr::V6(ip) => SocketAddr::V6 { ip, port, flowinfo: 0, scope_id: 0 },
    }
}

/// The order of addresses: version 4 first, then by number.
pub open spec fn ip_le(a: IpAddr, b: IpAddr) -> bool {
    match (a, b) {
        (IpAddr::V4(x), IpAddr::V4(y)) => x <= y,
        (IpAddr::V4(_), IpAddr::V6(_)) => true,
        (IpAddr::V6(_), IpAddr::V4(_)) => false,
        (IpAddr::V6(x), IpAddr::V6(y)) => x <= y,
    }
}

impl IpAddr {
    /// Whether this address comes before `other` or is the same.
    pub fn le(self, other: IpAddr) -> (b: bool)
        ensures
            b == ip_le(self, other),
    {
        match (self, other) {
            (IpAddr::V4(x), IpAddr::V4(y)) => x <= y,
            (IpAddr::V4(_), IpAddr::V6(_)) => true,
            (IpAddr::V6(_), IpAddr::V4(_)) => false,
            (IpAddr::V6(x), IpAddr::V6(y)) => x <= y,
        }
    }
}

impl SocketAddr {
    /// The socket address made of an address and a port alone.
    pub fn new(ip: IpAddr, port: u16) -> (addr: SocketAddr)
        ensures
            addr == socket_addr(ip, port),
    {
        match ip {
            IpAddr::V4(ip) => SocketAddr::V4 { ip, port },
            IpAddr::V6(ip) => SocketAddr::V6 { ip, port, flowinfo: 0, scope_id: 0 },
        }
    }

    /// The address part.
    pub fn ip(self) -> (ip: IpAddr)
        ensures
            ip == ip_of(self),
    {
        match self {
            SocketAddr::V4 { ip, .. } => IpAddr::V4(ip),
            SocketAddr::V6 { ip, .. } => IpAddr::V6(ip),
        }
    }
}

/// A set of addresses.
#[derive(Debug)]
pub struct IpSet {
    items: Vec<IpAddr>,
}

impl View for IpSet {
    type V = Set<IpAddr>;

    closed spec fn view(&self) -> Set<IpAddr> {
        self.items@.to_set()
    }
}

impl IpSet {
    /// No address is held twice.
    #[verifier::type_invariant]
    spec fn distinct(self) -> bool {
        self.items@.no_duplicates()
    }

    /// The empty set.
    pub fn new() -> (s: IpSet)
        ensures
            s@ == Set::<IpAddr>::empty(),
    {
        let s = IpSet { items: Vec::new() };
        assert(s@ =~= Set::<IpAddr>::empty());
        s
    }

    /// Whether `ip` is in the set.
    pub fn contains(&self, ip: IpAddr) -> (b: bool)
        ensures
            b == self@.contains(ip),
    {
        let mut i: usize = 0;
        while i < self.items.len()
            invariant
                i <= self.items@.len(),
                forall|k: int| 0 <= k < i ==> self.items@[k] != ip,
            decreases self.items@.len() - i,
        {
            if self.items[i] == ip {
                assert(self.items@.to_set().contains(self.items@[i as int]));
                return true;
            }
            i = i + 1;
        }
        false
    }

    /// Adds `ip` to the set.
    pub fn insert(&mut self, ip: IpAddr)
        ensures
            final(self)@ == old(self)@.insert(ip),
    {
        if !self.contains(ip) {
            proof {
                use_type_invariant(&*self);
                assert forall|k: int| 0 <= k < self.items@.len() implies self.items@[k] != ip by {
                    assert(self.items@.to_set().contains(self.items@[k]));
                }
            }
            let mut taken = IpSet::new();
            core::mem::swap(self, &mut taken);
            let mut items = taken.items;
            items.push(ip);
            *self = IpSet { items };
            assert(self@ =~= old(self)@.insert(ip)) by {
                let before = old(self).items@;
                assert(self.items@ == before.push(ip));
                assert forall|x: IpAddr| self@.contains(x) <==> old(self)@.insert(ip).contains(x) by {
                    if old(self)@.contains(x) {
                        let k = choose|k: int| 0 <= k < before.len() && before[k] == x;
                        assert(self.items@[k] == x);
                    }
                    assert(self.items@[before.len() as int] == ip);
                }
            }
        }
        assert(self@ =~= old(self)@.insert(ip));
    }

    /// Adds every address of a list to the set.
    pub fn insert_all(&mut self, ips: &Vec<IpAddr>)
        ensures
            final(self)@ == old(self)@ + ips@.to_set(),
    {
        let mut i: usize = 0;
        assert(self@ =~= old(self)@ + ips@.take(0).to_set());
        while i < ips.len()
            invariant
                i <= ips@.len(),
                self@ == old(self)@ + ips@.take(i as int).to_set(),
            decreases ips@.len() - i,
        {
            self.insert(ips[i]);
            proof {
                assert(ips@.take(i + 1) =~= ips@.take(i as int).push(ips@[i as int]));
                let t = ips@.take(i as int);
                assert forall|x: IpAddr| t.push(ips@[i as int]).to_set().contains(x)
                    <==> t.to_set().insert(ips@[i as int]).contains(x) by {
                    let u = t.push(ips@[i as int]);
                    if t.to_set().contains(x) {
                        let k = choose|k: int| 0 <= k < t.len() && t[k] == x;
                        assert(u[k] == x);
                    }
                    assert(u[t.len() as int] == ips@[i as int]);
                }
                assert(self@ =~= old(self)@ + ips@.take(i + 1).to_set());
            }
            i = i + 1;
        }
        assert(ips@.take(i as int) =~= ips@);
    }

    /// The members in no particular order.
    pub fn to_vec(&self) -> (v: Vec<IpAddr>)
        ensures
            v@.to_set() == self@,
            v@.no_duplicates(),
    {
        proof {
            use_type_invariant(self);
        }
        let v = self.items.clone();
        assert(v@ =~= self.items@);
        v
    }
}

impl Clone for IpSet {
    fn clone(&self) -> (r: IpSet)
        ensures
            r@ == self@,
    {
        proof {
            use_type_invariant(self);
        }
        let items = self.items.clone();
        assert(items@ =~= self.items@);
        IpSet { items }
    }
}

/// `ips` with `ip` put where it belongs, unless it is there.
pub open spec fn put_sorted(ips: Seq<IpAddr>, ip: IpAddr) -> Seq<IpAddr>
    decreases ips.len(),
{
    if ips.len() == 0 {
        seq![ip]
    } else if ips.last() == ip {
        ips
    } else if ip_le(ips.last(), ip) {
        ips.push(ip)
    } else {
        put_sorted(ips.drop_last(), ip).push(ips.last())
    }
}

/// The addresses of a list in ascending order, each once.
pub open spec fn sorted_ips(ips: Seq<IpAddr>) -> Seq<IpAddr>
    decreases ips.len(),
{
    if ips.len() == 0 {
        seq![]
    } else {
        put_sorted(sorted_ips(ips.drop_last()), ips.last())
    }
}

/// The addresses ascend, so none stands twice.
pub open spec fn ascending(ips: Seq<IpAddr>) -> bool {
    forall|i: int, j: int| 0 <= i < j < ips.len() ==> ip_le(ips[i], ips[j]) && ips[i] != ips[j]
}

/// Putting an address where it belongs keeps the order and adds just it.
proof fn lemma_put_sorted(ips: Seq<IpAddr>, ip: IpAddr)
    requires
        ascending(ips),
    ensures
        ascending(put_sorted(ips, ip)),
        forall|x: IpAddr|
            #![trigger put_sorted(ips, ip).contains(x)]
            #![trigger ips.contains(x)]
            put_sorted(ips, ip).contains(x) <==> ips.contains(x) || x == ip,
        put_sorted(ips, ip).contains(ip),
    decreases ips.len(),
{
    let r = put_sorted(ips, ip);
    if ips.len() == 0 {
        assert(r[0] == ip);
    } else if ips.last() == ip {
    } else if ip_le(ips.last(), ip) {
        assert forall|x: IpAddr| r.contains(x) <==> ips.contains(x) || x == ip by {
            if ips.contains(x) {
                let k = choose|k: int| 0 <= k < ips.len() && ips[k] == x;
                assert(r[k] == x);
            }
            assert(r[ips.len() as int] == ip);
        }
        assert(ascending(r)) by {
            assert forall|i: int, j: int| 0 <= i < j < r.len() implies ip_le(r[i], r[j]) && r[i]
                != r[j] by {
                if j == ips.len() && i < ips.len() - 1 {
                    assert(ip_le(ips[i], ips[ips.len() - 1]) && ips[i] != ips[ips.len() - 1]);
                }
            }
        }
    } else {
        let init = ips.drop_last();
        lemma_put_sorted(init, ip);
        let mid = put_sorted(init, ip);
        let last = ips.last();
        assert forall|x: IpAddr| r.contains(x) <==> ips.contains(x) || x == ip by {
            if r.contains(x) {
                let k = choose|k: int| 0 <= k < r.len() && r[k] == x;
                if k < mid.len() {
                    assert(mid.contains(x));
                    if init.contains(x) {
                        let m = choose|m: int| 0 <= m < init.len() && init[m] == x;
                        assert(ips[m] == x);
                    }
                } else {
                    assert(ips[ips.len() - 1] == x);
                }
            }
            if ips.contains(x) {
                let k = choose|k: int| 0 <= k < ips.len() && ips[k] == x;
                if k < init.len() {
                    assert(init[k] == x);
                    assert(mid.contains(x));
                    let m = choose|m: int| 0 <= m < mid.len() && mid[m] == x;
                    assert(r[m] == x);
                } else {
                    assert(r[mid.len() as int] == x);
                }
            }
            if x == ip {
                assert(mid.contains(x));
                let m = choose|m: int| 0 <= m < mid.len() && mid[m] == x;
                assert(r[m] == x);
            }
        }
        assert(ascending(r)) by {
            assert forall|i: int, j: int| 0 <= i < j < r.len() implies ip_le(r[i], r[j]) && r[i]
                != r[j] by {
                if j == mid.len() {
                    assert(mid.contains(r[i]));
                    if init.contains(r[i]) {
                        let m = choose|m: int| 0 <= m < init.len() && init[m] == r[i];
                        assert(ip_le(ips[m], ips[ips.len() - 1]) && ips[m] != ips[ips.len() - 1]);
                    }
                } else {
                    assert(ascending(mid));
                    assert(r[i] == mid[i] && r[j] == mid[j]);
                }
            }
        }
    }
}

/// Sorting gives an ascending list of the same addresses.
pub proof fn lemma_sorted_ips(ips: Seq<IpAddr>)
    ensures
        ascending(sorted_ips(ips)),
        sorted_ips(ips).to_set() == ips.to_set(),
        sorted_ips(ips).len() == 0 <==> ips.len() == 0,
    decreases ips.len(),
{
    if ips.len() > 0 {
        let init = ips.drop_last();
        lemma_sorted_ips(init);
        lemma_put_sorted(sorted_ips(init), ips.last());
        let r = sorted_ips(ips);
        assert forall|x: IpAddr| r.to_set().contains(x) <==> ips.to_set().contains(x) by {
            assert(sorted_ips(init).to_set().contains(x) <==> sorted_ips(init).contains(x));
            assert(init.to_set().contains(x) <==> init.contains(x));
            if init.contains(x) {
                let m = choose|m: int| 0 <= m < init.len() && init[m] == x;
                assert(ips[m] == x);
            }
            if ips.contains(x) {
                let k = choose|k: int| 0 <= k < ips.len() && ips[k] == x;
                if k < init.len() {
                    assert(init[k] == x);
                }
            }
            assert(ips[ips.len() - 1] == ips.last());
        }
        assert(r.to_set() =~= ips.to_set());
        assert(r.contains(ips.last()));
    } else {
        assert(sorted_ips(ips) =~= ips);
    }
}

/// Sorts a list of addresses and drops repetitions.
pub fn sort_ips(ips: &Vec<IpAddr>) -> (r: Vec<IpAddr>)
    ensures
        r@ == sorted_ips(ips@),
{
    let mut r: Vec<IpAddr> = Vec::new();
    let mut i: usize = 0;
    assert(r@ =~= sorted_ips(ips@.take(0)));
    while i < ips.len()
        invariant
            i <= ips@.len(),
            r@ == sorted_ips(ips@.take(i as int)),
        decreases ips@.len() - i,
    {
        assert(ips@.take(i + 1).drop_last() =~= ips@.take(i as int));
        let ip = ips[i];
        let mut k: usize = r.len();
        let ghost before = r@;
        proof {
            assert(before.take(k as int) =~= before);
            assert(put_sorted(before, ip) =~= put_sorted(before.take(k as int), ip) + before.skip(
                k as int,
            ));
        }
        while k > 0 && r[k - 1] != ip && !r[k - 1].le(ip)
            invariant
                k <= r@.len(),
                r@ == before,
                put_sorted(before, ip) == put_sorted(before.take(k as int), ip) + before.skip(
                    k as int,
                ),
            decreases k,
        {
            assert(before.take(k as int).drop_last() =~= before.take(k - 1));
            assert(put_sorted(before.take(k - 1), ip).push(before[k - 1]) + before.skip(k as int)
                =~= put_sorted(before.take(k - 1), ip) + before.skip(k - 1));
            k = k - 1;
        }
        assert(before.take(k as int) + before.skip(k as int) =~= before);
        if k == 0 || r[k - 1] != ip {
            r.insert(k, ip);
            assert(r@ =~= before.take(k as int).push(ip) + before.skip(k as int));
            assert(seq![ip] + before =~= before.insert(0, ip));
        }
        i = i + 1;
    }
    assert(ips@.take(i as int) =~= ips@);
    r
}

/// The addresses of a list without repetitions, each where it first stands.
pub open spec fn distinct_ips(ips: Seq<IpAddr>) -> Seq<IpAddr>
    decreases ips.len(),
{
    if ips.len() == 0 {
        seq![]
    } else {
        let init = distinct_ips(ips.drop_last());
        if init.contains(ips.last()) {
            init
        } else {
            init.push(ips.last())
        }
    }
}

/// A list without repetitions has the same addresses, each once.
pub proof fn lemma_distinct_ips(ips: Seq<IpAddr>)
    ensures
        distinct_ips(ips).no_duplicates(),
        distinct_ips(ips).to_set() == ips.to_set(),
    decreases ips.len(),
{
    if ips.len() > 0 {
        let init = ips.drop_last();
        lemma_distinct_ips(init);
        let d = distinct_ips(init);
        let all = distinct_ips(ips);
        assert forall|ip: IpAddr| all.contains(ip) <==> ips.contains(ip) by {
            assert(d.contains(ip) <==> init.contains(ip)) by {
                assert(d.to_set().contains(ip) <==> init.to_set().contains(ip));
            }
            if ips.contains(ip) {
                let i = ips.index_of(ip);
                if i < init.len() {
                    assert(init[i] == ip);
                }
            }
            if init.contains(ip) {
                assert(ips[init.index_of(ip)] == ip);
            }
            if d.contains(ip) {
                assert(all[d.index_of(ip)] == ip);
            }
            if all.contains(ip) && !d.contains(ips.last()) {
                let i = all.index_of(ip);
                if i < d.len() {
                    assert(d[i] == ip);
                }
            }
            if !d.contains(ips.last()) {
                assert(all[d.len() as int] == ips.last());
            }
            assert(ips[ips.len() - 1] == ips.last());
        }
        assert(all.to_set() =~= ips.to_set());
    } else {
        assert(distinct_ips(ips).to_set() =~= ips.to_set());
    }
}

/// Drops repetitions from a list of addresses.
pub fn dedup_ips(ips: &Vec<IpAddr>) -> (r: Vec<IpAddr>)
    ensures
        r@ == distinct_ips(ips@),
{
    let mut r: Vec<IpAddr> = Vec::new();
    let mut i: usize = 0;
    assert(r@ =~= distinct_ips(ips@.take(0)));
    while i < ips.len()
        invariant
            i <= ips@.len(),
            r@ == distinct_ips(ips@.take(i as int)),
        decreases ips@.len() - i,
    {
        assert(ips@.take(i + 1).drop_last() =~= ips@.take(i as int));
        let mut k: usize = 0;
        let mut seen: bool = false;
        while k < r.len()
            invariant
                k <= r@.len(),
                i < ips@.len(),
                seen == exists|j: int| 0 <= j < k && #[trigger] r@[j] == ips@[i as int],
            decreases r@.len() - k,
        {
            if r[k] == ips[i] {
                seen = true;
            }
            k = k + 1;
        }
        assert(seen == r@.contains(ips@[i as int]));
        if !seen {
            r.push(ips[i]);
        }
        i = i + 1;
    }
    assert(ips@.take(i as int) =~= ips@);
    r
}

/// A set of socket addresses.
#[derive(Debug)]
pub struct AddrSet {
    items: Vec<SocketAddr>,
}

impl View for AddrSet {
    type V = Set<SocketAddr>;

    closed spec fn view(&self) -> Set<SocketAddr> {
        self.items@.to_set()
    }
}

impl AddrSet {
    /// No address is held twice.
    #[verifier::type_invariant]
    spec fn distinct(self) -> bool {
        self.items@.no_duplicates()
    }

    /// The empty set.
    pub fn new() -> (s: AddrSet)
        ensures
            s@ == Set::<SocketAddr>::empty(),
    {
        let s = AddrSet { items: Vec::new() };
        assert(s@ =~= Set::<SocketAddr>::empty());
        s
    }

    /// The place of an address.
    fn index_of(&self, addr: SocketAddr) -> (r: Option<usize>)
        ensures
            match r {
                Some(i) => i < self.items@.len() && self.items@[i as int] == addr,
                None => !self.items@.contains(addr),
            },
    {
        let mut i: usize = 0;
        while i < self.items.len()
            invariant
                i <= self.items@.len(),
                forall|k: int| 0 <= k < i ==> self.items@[k] != addr,
            decreases self.items@.len() - i,
        {
            if self.items[i] == addr {
                return Some(i);
            }
            i = i + 1;
        }
        None
    }

    /// Whether `addr` is in the set.
    pub fn contains(&self, addr: SocketAddr) -> (b: bool)
        ensures
            b == self@.contains(addr),
    {
        match self.index_of(addr) {
            Some(i) => {
                assert(self.items@.contains(self.items@[i as int]));
                true
            },
            None => false,
        }
    }

    /// Adds `addr` to the set.
    pub fn insert(&mut self, addr: SocketAddr)
        ensures
            final(self)@ == old(self)@.insert(addr),
    {
        if self.index_of(addr).is_none() {
            proof {
                use_type_invariant(&*self);
            }
            let ghost before = self.items@;
            let mut taken = AddrSet::new();
            core::mem::swap(self, &mut taken);
            let mut items = taken.items;
            items.push(addr);
            assert(items@ == before.push(addr));
            assert(items@.no_duplicates()) by {
                assert forall|i: int, j: int| 0 <= i < j < items@.len() implies items@[i]
                    != items@[j] by {
                    if j == before.len() {
                        assert(before.contains(items@[i]));
                    }
                }
            }
            *self = AddrSet { items };
            assert forall|x: SocketAddr| self@.contains(x) <==> old(self)@.insert(addr).contains(x) by {
                if old(self)@.contains(x) {
                    let k = choose|k: int| 0 <= k < before.len() && before[k] == x;
                    assert(self.items@[k] == x);
                }
                assert(self.items@[before.len() as int] == addr);
            }
        }
        assert(self@ =~= old(self)@.insert(addr));
    }

    /// Takes `addr` out of the set. Tells whether it was there.
    pub fn remove(&mut self, addr: SocketAddr) -> (was: bool)
        ensures
            final(self)@ == old(self)@.remove(addr),
            was == old(self)@.contains(addr),
    {
        match self.index_of(addr) {
            Some(i) => {
                proof {
                    use_type_invariant(&*self);
                }
                let ghost before = self.items@;
                let mut taken = AddrSet::new();
                core::mem::swap(self, &mut taken);
                let mut items = taken.items;
                let _ = items.remove(i);
                assert(items@ =~= before.remove(i as int));
                assert forall|a: int, b: int| 0 <= a < b < items@.len() implies items@[a]
                    != items@[b] by {
                    let m = if a < i { a } else { a + 1 };
                    let n = if b < i { b } else { b + 1 };
                    assert(items@[a] == before[m] && items@[b] == before[n]);
                }
                *self = AddrSet { items };
                assert(before.contains(before[i as int]));
                assert forall|x: SocketAddr| self@.contains(x) <==> old(self)@.remove(
                    addr,
                ).contains(x) by {
                    if self@.contains(x) {
                        let k = choose|k: int| 0 <= k < items@.len() && items@[k] == x;
                        let m = if k < i { k } else { k + 1 };
                        assert(before[m] == x);
                        assert(m != i);
                    }
                    if old(self)@.contains(x) && x != addr {
                        let m = choose|m: int| 0 <= m < before.len() && before[m] == x;
                        let k = if m < i { m } else { m - 1 };
                        assert(items@[k] == x);
                    }
                }
                assert(self@ =~= old(self)@.remove(addr));
                true
            },
            None => {
                assert(self@ =~= old(self)@.remove(addr));
                false
            },
        }
    }
}

/// How a V4 address is written: its four bytes in decimal, with dots between.
pub open spec fn v4_text(ip: u32) -> Seq<char> {
    decimal((ip / 0x100_0000) as nat) + "."@ + decimal((ip / 0x1_0000 % 0x100) as nat) + "."@
        + decimal((ip / 0x100 % 0x100) as nat) + "."@ + decimal((ip % 0x100) as nat)
}

/// How a socket address is written. That of a V6 address is `v6`.
pub open spec fn addr_text(addr: SocketAddr, v6: Seq<char>) -> Seq<char> {
    match addr {
        SocketAddr::V4 { ip, port } => v4_text(ip) + ":"@ + decimal(port as nat),
        SocketAddr::V6 { .. } => v6,
    }
}

/// Writes a V4 address.
pub fn v4_string(ip: u32) -> (s: String)
    ensures
        s@ == v4_text(ip),
{
    let mut s = decimal_text((ip / 0x100_0000) as u64);
    s.append(".");
    s.append(decimal_text((ip / 0x1_0000 % 0x100) as u64).as_str());
    s.append(".");
    s.append(decimal_text((ip / 0x100 % 0x100) as u64).as_str());
    s.append(".");
    s.append(decimal_text((ip % 0x100) as u64).as_str());
    s
}

/// Writes a socket address, given how it is written where it is a V6 one.
pub fn addr_string(addr: SocketAddr, v6: &str) -> (s: String)
    ensures
        s@ == addr_text(addr, v6@),
{
    match addr {
        SocketAddr::V4 { ip, port } => {
            let mut s = v4_string(ip);
            s.append(":");
            s.append(decimal_text(port as u64).as_str());
            s
        },
        SocketAddr::V6 { .. } => v6.to_owned(),
    }
}

/// A map from socket addresses to numbers.
#[derive(Debug)]
pub struct AddrMap {
    entries: Vec<(SocketAddr, u64)>,
}

/// No address stands twice.
pub open spec fn distinct_addrs(entries: Seq<(SocketAddr, u64)>) -> bool {
    forall|i: int, j: int|
        0 <= i < j < entries.len() ==> (#[trigger] entries[i]).0 != (#[trigger] entries[j]).0
}

/// The entries of a map, looked up one after the other.
pub open spec fn addr_entries(entries: Seq<(SocketAddr, u64)>) -> Map<SocketAddr, u64> {
    Map::new(
        |a: SocketAddr| exists|i: int| 0 <= i < entries.len() && (#[trigger] entries[i]).0 == a,
        |a: SocketAddr|
            entries[choose|i: int| 0 <= i < entries.len() && (#[trigger] entries[i]).0 == a].1,
    )
}

/// The numbers of some addresses.
pub open spec fn numbers_of(m: Map<SocketAddr, u64>, addrs: Seq<SocketAddr>) -> Seq<u64> {
    addrs.map_values(|a: SocketAddr| m[a])
}

/// `v` has the number of each address once, in some order.
pub open spec fn lists_numbers(m: Map<SocketAddr, u64>, v: Seq<u64>) -> bool {
    exists|addrs: Seq<SocketAddr>|
        addrs.no_duplicates() && addrs.to_set() == m.dom() && v == #[trigger] numbers_of(m, addrs)
}

/// Each entry's address leads to its number.
proof fn lemma_addr_entry(entries: Seq<(SocketAddr, u64)>, i: int)
    requires
        distinct_addrs(entries),
        0 <= i < entries.len(),
    ensures
        addr_entries(entries).contains_key(entries[i].0),
        addr_entries(entries)[entries[i].0] == entries[i].1,
{
    let a = entries[i].0;
    let j = choose|j: int| 0 <= j < entries.len() && (#[trigger] entries[j]).0 == a;
    assert(entries[i].0 == a);
    if j < i {
        assert(entries[j].0 != entries[i].0);
    } else if i < j {
        assert(entries[i].0 != entries[j].0);
    }
}

/// One more entry for an address that was not there.
proof fn lemma_addr_push(entries: Seq<(SocketAddr, u64)>, a: SocketAddr, n: u64)
    requires
        distinct_addrs(entries),
        !addr_entries(entries).contains_key(a),
    ensures
        distinct_addrs(entries.push((a, n))),
        addr_entries(entries.push((a, n))) == addr_entries(entries).insert(a, n),
{
    let e = entries.push((a, n));
    assert forall|i: int, j: int| 0 <= i < j < e.len() implies (#[trigger] e[i]).0 != (
    #[trigger] e[j]).0 by {
        assert(e[i] == entries[i]);
        assert(addr_entries(entries).contains_key(entries[i].0));
    }
    let (m, w) = (addr_entries(e), addr_entries(entries).insert(a, n));
    assert(e[entries.len() as int] == (a, n));
    lemma_addr_entry(e, entries.len() as int);
    assert forall|x: SocketAddr| m.contains_key(x) <==> w.contains_key(x) by {
        if addr_entries(entries).contains_key(x) {
            let i = choose|i: int| 0 <= i < entries.len() && (#[trigger] entries[i]).0 == x;
            assert(e[i].0 == x);
        }
        if m.contains_key(x) {
            let i = choose|i: int| 0 <= i < e.len() && (#[trigger] e[i]).0 == x;
            if i < entries.len() {
                assert(entries[i].0 == x);
            }
        }
    }
    assert forall|x: SocketAddr| #[trigger] m.contains_key(x) implies m[x] == w[x] by {
        let i = choose|i: int| 0 <= i < e.len() && (#[trigger] e[i]).0 == x;
        lemma_addr_entry(e, i);
        if i < entries.len() {
            assert(entries[i] == e[i]);
            lemma_addr_entry(entries, i);
        }
    }
    assert(m =~= w);
}

/// One entry less.
proof fn lemma_addr_remove(entries: Seq<(SocketAddr, u64)>, k: int)
    requires
        distinct_addrs(entries),
        0 <= k < entries.len(),
    ensures
        distinct_addrs(entries.remove(k)),
        addr_entries(entries.remove(k)) == addr_entries(entries).remove(entries[k].0),
{
    let e = entries.remove(k);
    let a = entries[k].0;
    assert forall|i: int, j: int| 0 <= i < j < e.len() implies (#[trigger] e[i]).0 != (
    #[trigger] e[j]).0 by {
        let p = if i < k { i } else { i + 1 };
        let q = if j < k { j } else { j + 1 };
        assert(e[i] == entries[p] && e[j] == entries[q]);
    }
    let (m, w) = (addr_entries(e), addr_entries(entries).remove(a));
    assert forall|x: SocketAddr| m.contains_key(x) <==> w.contains_key(x) by {
        if m.contains_key(x) {
            let i = choose|i: int| 0 <= i < e.len() && (#[trigger] e[i]).0 == x;
            let p = if i < k { i } else { i + 1 };
            assert(entries[p] == e[i]);
            assert(entries[p].0 == x);
            assert(p != k);
            if p < k {
                assert(entries[p].0 != entries[k].0);
            } else {
                assert(entries[k].0 != entries[p].0);
            }
        }
        if w.contains_key(x) {
            let i = choose|i: int| 0 <= i < entries.len() && (#[trigger] entries[i]).0 == x;
            let p = if i < k { i } else { i - 1 };
            assert(e[p] == entries[i]);
            assert(e[p].0 == x);
        }
    }
    assert forall|x: SocketAddr| #[trigger] m.contains_key(x) implies m[x] == w[x] by {
        let i = choose|i: int| 0 <= i < e.len() && (#[trigger] e[i]).0 == x;
        let p = if i < k { i } else { i + 1 };
        assert(entries[p] == e[i]);
        lemma_addr_entry(e, i);
        lemma_addr_entry(entries, p);
    }
    assert(m =~= w);
}

/// An entry is one of the first `n` whose number reaches a limit.
spec fn kept_of(entries: Seq<(SocketAddr, u64)>, n: int, e: (SocketAddr, u64), limit: u64) -> bool {
    exists|j: int| 0 <= j < n && (#[trigger] entries[j]) == e && entries[j].1 >= limit
}

/// An address is that of one of the first `n` whose number is below a limit.
spec fn gone_of(entries: Seq<(SocketAddr, u64)>, n: int, a: SocketAddr, limit: u64) -> bool {
    exists|j: int| 0 <= j < n && (#[trigger] entries[j]).0 == a && entries[j].1 < limit
}

impl View for AddrMap {
    type V = Map<SocketAddr, u64>;

    closed spec fn view(&self) -> Map<SocketAddr, u64> {
        addr_entries(self.entries@)
    }
}

impl AddrMap {
    /// No address stands twice.
    #[verifier::type_invariant]
    spec fn distinct(self) -> bool {
        distinct_addrs(self.entries@)
    }

    /// The map without entries.
    pub fn new() -> (m: AddrMap)
        ensures
            m@ == Map::<SocketAddr, u64>::empty(),
    {
        let m = AddrMap { entries: Vec::new() };
        assert(m@ =~= Map::<SocketAddr, u64>::empty());
        m
    }

    /// The place of an address.
    fn index_of(&self, addr: SocketAddr) -> (r: Option<usize>)
        ensures
            match r {
                Some(i) => i < self.entries@.len() && self.entries@[i as int].0 == addr,
                None => !self@.contains_key(addr),
            },
    {
        let mut i: usize = 0;
        while i < self.entries.len()
            invariant
                i <= self.entries@.len(),
                forall|k: int| 0 <= k < i ==> (#[trigger] self.entries@[k]).0 != addr,
            decreases self.entries@.len() - i,
        {
            if self.entries[i].0 == addr {
                return Some(i);
            }
            i = i + 1;
        }
        None
    }

    /// The number of an address.
    pub fn get(&self, addr: SocketAddr) -> (r: Option<u64>)
        ensures
            r == if self@.contains_key(addr) {
                Some(self@[addr])
            } else {
                None
            },
    {
        proof {
            use_type_invariant(self);
        }
        match self.index_of(addr) {
            Some(i) => {
                proof {
                    lemma_addr_entry(self.entries@, i as int);
                }
                Some(self.entries[i].1)
            },
            None => None,
        }
    }

    /// Takes an address out. Gives its number if it was there.
    pub fn remove(&mut self, addr: SocketAddr) -> (r: Option<u64>)
        ensures
            final(self)@ == old(self)@.remove(addr),
            r == if old(self)@.contains_key(addr) {
                Some(old(self)@[addr])
            } else {
                None
            },
    {
        proof {
            use_type_invariant(&*self);
        }
        match self.index_of(addr) {
            Some(i) => {
                let ghost before = self.entries@;
                proof {
                    lemma_addr_entry(before, i as int);
                    lemma_addr_remove(before, i as int);
                }
                let mut taken = AddrMap::new();
                core::mem::swap(self, &mut taken);
                let mut entries = taken.entries;
                let (_, n) = entries.remove(i);
                assert(entries@ =~= before.remove(i as int));
                *self = AddrMap { entries };
                Some(n)
            },
            None => {
                assert(self@ =~= old(self)@.remove(addr));
                None
            },
        }
    }

    /// Gives an address a number, whether it was there or not.
    pub fn insert(&mut self, addr: SocketAddr, n: u64)
        ensures
            final(self)@ == old(self)@.insert(addr, n),
    {
        let _ = self.remove(addr);
        proof {
            use_type_invariant(&*self);
            lemma_addr_push(self.entries@, addr, n);
        }
        let ghost mid = self.entries@;
        let mut taken = AddrMap::new();
        core::mem::swap(self, &mut taken);
        let mut entries = taken.entries;
        entries.push((addr, n));
        assert(entries@ == mid.push((addr, n)));
        *self = AddrMap { entries };
        assert(self@ =~= old(self)@.insert(addr, n));
    }

    /// Takes out all addresses whose number is below a limit, and gives them.
    pub fn take_below(&mut self, limit: u64) -> (gone: Vec<SocketAddr>)
        ensures
            forall|a: SocketAddr|
                #![trigger gone@.contains(a)]
                #![trigger old(self)@.contains_key(a)]
                gone@.contains(a) <==> old(self)@.contains_key(a) && old(self)@[a] < limit,
            gone@.no_duplicates(),
            forall|a: SocketAddr| #[trigger]
                final(self)@.contains_key(a) <==> old(self)@.contains_key(a) && old(self)@[a]
                    >= limit,
            forall|a: SocketAddr| #[trigger]
                final(self)@.contains_key(a) ==> final(self)@[a] == old(self)@[a],
    {
        proof {
            use_type_invariant(&*self);
        }
        let ghost before = self.entries@;
        let ghost start = self@;
        let mut taken = AddrMap::new();
        core::mem::swap(self, &mut taken);
        let old_entries = taken.entries;
        let mut entries: Vec<(SocketAddr, u64)> = Vec::new();
        let mut gone: Vec<SocketAddr> = Vec::new();
        let mut i: usize = 0;
        while i < old_entries.len()
            invariant
                i <= old_entries@.len(),
                old_entries@ == before,
                distinct_addrs(before),
                distinct_addrs(entries@),
                gone@.no_duplicates(),
                forall|k: int|
                    0 <= k < entries@.len() ==> kept_of(before, i as int, #[trigger] entries@[k], limit),
                forall|k: int|
                    0 <= k < gone@.len() ==> gone_of(before, i as int, #[trigger] gone@[k], limit),
                forall|j: int|
                    0 <= j < i && (#[trigger] before[j]).1 >= limit ==> entries@.contains(before[j]),
                forall|j: int|
                    0 <= j < i && (#[trigger] before[j]).1 < limit ==> gone@.contains(before[j].0),
            decreases old_entries@.len() - i,
        {
            let (a, n) = old_entries[i];
            let ghost e0 = entries@;
            let ghost g0 = gone@;
            if n < limit {
                gone.push(a);
                proof {
                    assert forall|p: int, q: int| 0 <= p < q < gone@.len() implies gone@[p]
                        != gone@[q] by {
                        if q == g0.len() {
                            assert(gone_of(before, i as int, g0[p], limit));
                        }
                    }
                    assert forall|j: int| 0 <= j < i + 1 && (#[trigger] before[j]).1
                        < limit implies gone@.contains(before[j].0) by {
                        if j < i {
                            let p = choose|p: int| 0 <= p < g0.len() && g0[p] == before[j].0;
                            assert(gone@[p] == before[j].0);
                        } else {
                            assert(gone@[g0.len() as int] == before[j].0);
                        }
                    }
                    assert forall|k: int| 0 <= k < gone@.len() implies gone_of(
                        before,
                        i + 1,
                        #[trigger] gone@[k],
                        limit,
                    ) by {
                        if k < g0.len() {
                            assert(gone_of(before, i as int, g0[k], limit));
                        } else {
                            assert(before[i as int].0 == gone@[k]);
                        }
                    }
                }
            } else {
                entries.push((a, n));
                proof {
                    assert forall|p: int, q: int| 0 <= p < q < entries@.len() implies (
                    #[trigger] entries@[p]).0 != (#[trigger] entries@[q]).0 by {
                        if q == e0.len() {
                            assert(kept_of(before, i as int, e0[p], limit));
                        } else {
                            assert(e0[p].0 != e0[q].0);
                        }
                    }
                    assert forall|j: int| 0 <= j < i + 1 && (#[trigger] before[j]).1
                        >= limit implies entries@.contains(before[j]) by {
                        if j < i {
                            let p = choose|p: int| 0 <= p < e0.len() && e0[p] == before[j];
                            assert(entries@[p] == before[j]);
                        } else {
                            assert(entries@[e0.len() as int] == before[j]);
                        }
                    }
                    assert forall|k: int| 0 <= k < entries@.len() implies kept_of(
                        before,
                        i + 1,
                        #[trigger] entries@[k],
                        limit,
                    ) by {
                        if k < e0.len() {
                            assert(kept_of(before, i as int, e0[k], limit));
                        } else {
                            assert(before[i as int] == entries@[k]);
                        }
                    }
                }
            }
            i = i + 1;
        }
        *self = AddrMap { entries };
        proof {
            assert forall|a: SocketAddr| gone@.contains(a) <==> start.contains_key(a) && start[a]
                < limit by {
                if gone@.contains(a) {
                    let k = choose|k: int| 0 <= k < gone@.len() && gone@[k] == a;
                    assert(gone_of(before, i as int, gone@[k], limit));
                    let j = choose|j: int|
                        0 <= j < i && (#[trigger] before[j]).0 == a && before[j].1 < limit;
                    lemma_addr_entry(before, j);
                }
                if start.contains_key(a) && start[a] < limit {
                    let j = choose|j: int| 0 <= j < before.len() && (#[trigger] before[j]).0 == a;
                    lemma_addr_entry(before, j);
                }
            }
            assert forall|a: SocketAddr| #[trigger] self@.contains_key(a) implies self@[a]
                == start[a] && start.contains_key(a) && start[a] >= limit by {
                let k = choose|k: int| 0 <= k < entries@.len() && (#[trigger] entries@[k]).0 == a;
                assert(kept_of(before, i as int, entries@[k], limit));
                let j = choose|j: int|
                    0 <= j < i && (#[trigger] before[j]) == entries@[k] && before[j].1 >= limit;
                lemma_addr_entry(before, j);
                lemma_addr_entry(entries@, k);
            }
            assert forall|a: SocketAddr| start.contains_key(a) && start[a] >= limit implies #[trigger]
                self@.contains_key(a) by {
                let j = choose|j: int| 0 <= j < before.len() && (#[trigger] before[j]).0 == a;
                lemma_addr_entry(before, j);
                let k = choose|k: int| 0 <= k < entries@.len() && entries@[k] == before[j];
                lemma_addr_entry(entries@, k);
            }
        }
        gone
    }

    /// The numbers of all addresses.
    pub fn values(&self) -> (v: Vec<u64>)
        ensures
            lists_numbers(self@, v@),
    {
        let mut v: Vec<u64> = Vec::new();
        let mut i: usize = 0;
        let ghost addrs = self.entries@.map_values(|e: (SocketAddr, u64)| e.0);
        proof {
            use_type_invariant(self);
            assert forall|a: SocketAddr| addrs.to_set().contains(a) <==> self@.contains_key(a) by {
                if addrs.contains(a) {
                    let k = choose|k: int| 0 <= k < addrs.len() && addrs[k] == a;
                    lemma_addr_entry(self.entries@, k);
                }
                if self@.contains_key(a) {
                    let k = choose|k: int|
                        0 <= k < self.entries@.len() && (#[trigger] self.entries@[k]).0 == a;
                    assert(addrs[k] == a);
                }
            }
            assert(addrs.to_set() =~= self@.dom());
        }
        while i < self.entries.len()
            invariant
                i <= self.entries@.len(),
                distinct_addrs(self.entries@),
                addrs == self.entries@.map_values(|e: (SocketAddr, u64)| e.0),
                v@ =~= numbers_of(self@, addrs).take(i as int),
            decreases self.entries@.len() - i,
        {
            proof {
                lemma_addr_entry(self.entries@, i as int);
            }
            v.push(self.entries[i].1);
            i = i + 1;
        }
        assert(v@ =~= numbers_of(self@, addrs));
        v
    }
}

} // verus!
