//! What holds of addresses and of what is kept by them.
//!
//! Each law speaks of calls: of what goes into them and what comes out.

use super::{
    addr_string, ascending, dedup_ips, distinct_ips, lemma_distinct_ips, lemma_sorted_ips,
    lists_numbers, numbers_of, sort_ips, v4_string, AddrMap, AddrSet, IpAddr, IpSet, SocketAddr,
};
use crate::text::decimal;
use vstd::prelude::*;

verus! {

/// Addresses are ordered: those of version 4 first, and by number.
pub proof fn lemma_addresses_are_ordered(a: IpAddr, b: IpAddr, r: bool, s: bool)
    requires
        call_ensures(IpAddr::le, (a, b), r),
        call_ensures(IpAddr::le, (b, a), s),
    ensures
        r || s,
        r && s <==> a == b,
        a is V4 && b is V6 ==> r,
        a matches IpAddr::V4(x) ==> (b matches IpAddr::V4(y) ==> r == (x <= y)),
        a matches IpAddr::V6(x) ==> (b matches IpAddr::V6(y) ==> r == (x <= y)),
{
}

/// A socket address is made of an address and a port, and gives them back.
pub proof fn lemma_socket_addresses(ip: IpAddr, port: u16, a: SocketAddr, back: IpAddr)
    requires
        call_ensures(SocketAddr::new, (ip, port), a),
        call_ensures(SocketAddr::ip, (a,), back),
    ensures
        back == ip,
        ip matches IpAddr::V4(n) ==> a == (SocketAddr::V4 { ip: n, port }),
        ip matches IpAddr::V6(n) ==> a == (SocketAddr::V6 {
            ip: n,
            port,
            flowinfo: 0,
            scope_id: 0,
        }),
{
}

/// A set of addresses holds what was put in, once each.
pub proof fn lemma_sets_of_addresses(
    new: IpSet,
    s: &mut IpSet,
    ip: IpAddr,
    t: &mut IpSet,
    ips: &Vec<IpAddr>,
    q: &IpSet,
    has: bool,
    all: Vec<IpAddr>,
)
    requires
        call_ensures(IpSet::new, (), new),
        call_ensures(IpSet::insert, (s, ip), ()),
        call_ensures(IpSet::insert_all, (t, ips), ()),
        call_ensures(IpSet::contains, (q, ip), has),
        call_ensures(IpSet::to_vec, (q,), all),
    ensures
        new@ == Set::<IpAddr>::empty(),
        final(s)@ == old(s)@.insert(ip),
        final(t)@ == old(t)@ + ips@.to_set(),
        has <==> q@.contains(ip),
        all@.no_duplicates(),
        all@.contains(ip) <==> q@.contains(ip),
{
    assert(all@.to_set().contains(ip) <==> all@.contains(ip));
}

/// Addresses are sorted in ascending order, each once, and none is lost.
pub proof fn lemma_addresses_are_sorted(ips: &Vec<IpAddr>, r: Vec<IpAddr>, ip: IpAddr)
    requires
        call_ensures(sort_ips, (ips,), r),
    ensures
        ascending(r@),
        r@.contains(ip) <==> ips@.contains(ip),
{
    lemma_sorted_ips(ips@);
    assert(r@.to_set().contains(ip) <==> r@.contains(ip));
    assert(ips@.to_set().contains(ip) <==> ips@.contains(ip));
}

/// Of addresses that stand twice the first is kept: none is lost, none stands
/// twice, and a list without repetitions stays as it is.
pub proof fn lemma_repetitions_are_dropped(ips: &Vec<IpAddr>, r: Vec<IpAddr>, ip: IpAddr)
    requires
        call_ensures(dedup_ips, (ips,), r),
    ensures
        r@.no_duplicates(),
        r@.contains(ip) <==> ips@.contains(ip),
        ips@.no_duplicates() ==> r@ == ips@,
        ips@.len() > 0 ==> r@.len() > 0 && r@[0] == ips@[0],
{
    lemma_distinct_ips(ips@);
    assert(r@.to_set().contains(ip) <==> r@.contains(ip));
    assert(ips@.to_set().contains(ip) <==> ips@.contains(ip));
    if ips@.no_duplicates() {
        lemma_distinct_stays(ips@);
    }
    if ips@.len() > 0 {
        lemma_first_stays(ips@);
    }
}

/// A list without repetitions stays as it is.
proof fn lemma_distinct_stays(ips: Seq<IpAddr>)
    requires
        ips.no_duplicates(),
    ensures
        distinct_ips(ips) == ips,
    decreases ips.len(),
{
    if ips.len() > 0 {
        let init = ips.drop_last();
        lemma_distinct_stays(init);
        if init.contains(ips.last()) {
            let i = init.index_of(ips.last());
            assert(ips[i] == ips[ips.len() - 1]);
        }
        assert(init.push(ips.last()) =~= ips);
    }
}

/// The first address stays the first.
proof fn lemma_first_stays(ips: Seq<IpAddr>)
    requires
        ips.len() > 0,
    ensures
        distinct_ips(ips).len() > 0,
        distinct_ips(ips)[0] == ips[0],
    decreases ips.len(),
{
    if ips.len() > 1 {
        lemma_first_stays(ips.drop_last());
    } else {
        assert(distinct_ips(ips.drop_last()) =~= seq![]);
    }
}

/// A set of socket addresses holds what was put in until it is taken out.
pub proof fn lemma_sets_of_peers(
    new: AddrSet,
    s: &mut AddrSet,
    addr: SocketAddr,
    t: &mut AddrSet,
    was: bool,
    q: &AddrSet,
    has: bool,
)
    requires
        call_ensures(AddrSet::new, (), new),
        call_ensures(AddrSet::insert, (s, addr), ()),
        call_ensures(AddrSet::remove, (t, addr), was),
        call_ensures(AddrSet::contains, (q, addr), has),
    ensures
        new@ == Set::<SocketAddr>::empty(),
        final(s)@ == old(s)@.insert(addr),
        final(t)@ == old(t)@.remove(addr),
        was <==> old(t)@.contains(addr),
        has <==> q@.contains(addr),
{
}

/// A V4 address is written as its four bytes in decimal, with dots between, and
/// with a port behind a colon.
pub proof fn lemma_addresses_are_written(
    a: u8,
    b: u8,
    c: u8,
    d: u8,
    ip: u32,
    port: u16,
    v6: &str,
    s: String,
    t: String,
)
    requires
        ip == ((a * 256 + b) * 256 + c) * 256 + d,
        call_ensures(v4_string, (ip,), s),
        call_ensures(addr_string, (SocketAddr::V4 { ip, port }, v6), t),
    ensures
        s@ == decimal(a as nat) + "."@ + decimal(b as nat) + "."@ + decimal(c as nat) + "."@
            + decimal(d as nat),
        t@ == s@ + ":"@ + decimal(port as nat),
{
    assert(ip / 0x100_0000 == a);
    assert(ip / 0x1_0000 % 0x100 == b);
    assert(ip / 0x100 % 0x100 == c);
    assert(ip % 0x100 == d);
}

/// A V6 address is written as it is given.
pub proof fn lemma_v6_addresses_are_written(addr: SocketAddr, v6: &str, t: String)
    requires
        addr is V6,
        call_ensures(addr_string, (addr, v6), t),
    ensures
        t@ == v6@,
{
}

/// A map from addresses keeps the number of each until it is replaced or taken
/// out.
pub proof fn lemma_maps_from_addresses(
    new: AddrMap,
    m: &mut AddrMap,
    addr: SocketAddr,
    n: u64,
    r: &mut AddrMap,
    gone: Option<u64>,
    q: &AddrMap,
    got: Option<u64>,
    all: Vec<u64>,
)
    requires
        call_ensures(AddrMap::new, (), new),
        call_ensures(AddrMap::insert, (m, addr, n), ()),
        call_ensures(AddrMap::remove, (r, addr), gone),
        call_ensures(AddrMap::get, (q, addr), got),
        call_ensures(AddrMap::values, (q,), all),
    ensures
        new@ == Map::<SocketAddr, u64>::empty(),
        final(m)@ == old(m)@.insert(addr, n),
        final(r)@ == old(r)@.remove(addr),
        gone is Some <==> old(r)@.contains_key(addr),
        gone is Some ==> gone->0 == old(r)@[addr],
        got is Some <==> q@.contains_key(addr),
        got is Some ==> got->0 == q@[addr],
        got is Some ==> all@.contains(got->0),
{
    if q@.contains_key(addr) {
        let m = q@;
        let addrs = choose|addrs: Seq<SocketAddr>|
            addrs.no_duplicates() && addrs.to_set() == m.dom() && all@
                == #[trigger] numbers_of(m, addrs);
        assert(lists_numbers(m, all@));
        assert(addrs.to_set().contains(addr));
        let i = addrs.index_of(addr);
        assert(all@[i] == m[addr]);
    }
}

/// What lies below a limit is taken out and named, each once; the rest stays.
pub proof fn lemma_old_entries_are_taken_out(
    m: &mut AddrMap,
    limit: u64,
    gone: Vec<SocketAddr>,
    addr: SocketAddr,
)
    requires
        call_ensures(AddrMap::take_below, (m, limit), gone),
    ensures
        gone@.no_duplicates(),
        !old(m)@.contains_key(addr) ==> !gone@.contains(addr) && !final(m)@.contains_key(addr),
        old(m)@.contains_key(addr) && old(m)@[addr] < limit ==> gone@.contains(addr) && !final(m)@.contains_key(addr),
        old(m)@.contains_key(addr) && old(m)@[addr] >= limit ==> !gone@.contains(addr) && final(m)@.contains_key(addr) && final(m)@[addr] == old(m)@[addr],
{
    assert(gone@.contains(addr) || !gone@.contains(addr));
    assert(final(m)@.contains_key(addr) || !final(m)@.contains_key(addr));
}

/// One more address is added at the end, unless it stands there already.
pub proof fn lemma_first_of_each_is_kept(
    ips: &Vec<IpAddr>,
    more: &Vec<IpAddr>,
    r: Vec<IpAddr>,
    s: Vec<IpAddr>,
)
    requires
        more@.len() > 0,
        more@.drop_last() == ips@,
        call_ensures(dedup_ips, (ips,), r),
        call_ensures(dedup_ips, (more,), s),
    ensures
        ips@.contains(more@.last()) ==> s@ == r@,
        !ips@.contains(more@.last()) ==> s@ == r@.push(more@.last()),
{
    lemma_distinct_ips(ips@);
    let x = more@.last();
    assert(r@.to_set().contains(x) <==> r@.contains(x));
    assert(ips@.to_set().contains(x) <==> ips@.contains(x));
}

} // verus!
