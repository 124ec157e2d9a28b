//! Big-endian integers inside byte sequences.

use vstd::prelude::*;

verus! {

/// `s` with the bytes from `i` on replaced by `t`.
pub open spec fn splice(s: Seq<u8>, i: int, t: Seq<u8>) -> Seq<u8> {
    s.take(i) + t + s.skip(i + t.len())
}

/// The big-endian bytes of a 16-bit number.
pub open spec fn be16(v: u16) -> Seq<u8> {
    seq![(v / 0x100) as u8, (v % 0x100) as u8]
}

/// The big-endian bytes of a 32-bit number.
#[verifier::opaque]
pub open spec fn be32(v: u32) -> Seq<u8> {
    seq![
        (v / 0x100_0000) as u8,
        (v / 0x1_0000 % 0x100) as u8,
        (v / 0x100 % 0x100) as u8,
        (v % 0x100) as u8,
    ]
}

/// The big-endian bytes of a 64-bit number.
#[verifier::opaque]
pub open spec fn be64(v: u64) -> Seq<u8> {
    be32((v / 0x1_0000_0000) as u32) + be32((v % 0x1_0000_0000) as u32)
}

/// The 16-bit number that starts at byte `i`.
pub open spec fn at16(s: Seq<u8>, i: int) -> u16 {
    (s[i] * 0x100 + s[i + 1]) as u16
}

/// The 32-bit number that starts at byte `i`.
#[verifier::opaque]
pub open spec fn at32(s: Seq<u8>, i: int) -> u32 {
    (s[i] * 0x100_0000 + s[i + 1] * 0x1_0000 + s[i + 2] * 0x100 + s[i + 3]) as u32
}

/// The 64-bit number that starts at byte `i`.
#[verifier::opaque]
pub open spec fn at64(s: Seq<u8>, i: int) -> u64 {
    (at32(s, i) * 0x1_0000_0000 + at32(s, i + 4)) as u64
}

/// A 32-bit number takes four bytes.
pub broadcast proof fn lemma_be32_len(v: u32)
    ensures
        #[trigger] be32(v).len() == 4,
{
    reveal(be32);
}

/// A 64-bit number takes eight bytes.
pub broadcast proof fn lemma_be64_len(v: u64)
    ensures
        #[trigger] be64(v).len() == 8,
{
    reveal(be32);
    reveal(be64);
}

/// Reading a 16-bit number where its bytes stand gives the number back.
pub proof fn lemma_at16_be16(s: Seq<u8>, i: int, v: u16)
    requires
        0 <= i,
        i + 2 <= s.len(),
        s.subrange(i, i + 2) == be16(v),
    ensures
        at16(s, i) == v,
{
    assert(s[i] == s.subrange(i, i + 2)[0]);
    assert(s[i + 1] == s.subrange(i, i + 2)[1]);
}

/// Reading a 32-bit number where its bytes stand gives the number back.
pub proof fn lemma_at32_be32(s: Seq<u8>, i: int, v: u32)
    requires
        0 <= i,
        i + 4 <= s.len(),
        s.subrange(i, i + 4) == be32(v),
    ensures
        at32(s, i) == v,
{
    reveal(be32);
    reveal(at32);
    let t = s.subrange(i, i + 4);
    assert(s[i] == t[0] && s[i + 1] == t[1] && s[i + 2] == t[2] && s[i + 3] == t[3]);
}

/// Reading a 64-bit number where its bytes stand gives the number back.
pub proof fn lemma_at64_be64(s: Seq<u8>, i: int, v: u64)
    requires
        0 <= i,
        i + 8 <= s.len(),
        s.subrange(i, i + 8) == be64(v),
    ensures
        at64(s, i) == v,
{
    reveal(be64);
    reveal(at64);
    broadcast use lemma_be32_len;
    let hi = (v / 0x1_0000_0000) as u32;
    let lo = (v % 0x1_0000_0000) as u32;
    let t = s.subrange(i, i + 8);
    assert(s.subrange(i, i + 4) =~= be32(hi)) by {
        assert forall|k: int| 0 <= k < 4 implies s[i + k] == be32(hi)[k] by {
            assert(t[k] == s[i + k]);
        }
    }
    assert(s.subrange(i + 4, i + 8) =~= be32(lo)) by {
        assert forall|k: int| 0 <= k < 4 implies s[i + 4 + k] == be32(lo)[k] by {
            assert(t[4 + k] == s[i + 4 + k]);
        }
    }
    lemma_at32_be32(s, i, hi);
    lemma_at32_be32(s, i + 4, lo);
}

/// Reads a 16-bit number at byte `i`.
pub fn get_u16(buf: &[u8], i: usize) -> (v: u16)
    requires
        i + 2 <= buf@.len(),
    ensures
        v == at16(buf@, i as int),
{
    (buf[i] as u16) * 0x100 + (buf[i + 1] as u16)
}

/// Reads a 32-bit number at byte `i`.
pub fn get_u32(buf: &[u8], i: usize) -> (v: u32)
    requires
        i + 4 <= buf@.len(),
    ensures
        v == at32(buf@, i as int),
{
    proof {
        reveal(at32);
    }
    (buf[i] as u32) * 0x100_0000 + (buf[i + 1] as u32) * 0x1_0000 + (buf[i + 2] as u32) * 0x100 + (
    buf[i + 3] as u32)
}

/// Reads a 64-bit number at byte `i`.
pub fn get_u64(buf: &[u8], i: usize) -> (v: u64)
    requires
        i + 8 <= buf@.len(),
    ensures
        v == at64(buf@, i as int),
{
    proof {
        reveal(at64);
    }
    assert(buf.len() == buf@.len());
    (get_u32(buf, i) as u64) * 0x1_0000_0000 + (get_u32(buf, i + 4) as u64)
}

/// Copies `t` over the bytes of `out` from `i` on.
pub fn put_bytes(out: &mut [u8], i: usize, t: &[u8])
    requires
        i + t@.len() <= old(out)@.len(),
    ensures
        final(out)@ == splice(old(out)@, i as int, t@),
{
    let n: usize = t.len();
    assert(out.len() == out@.len());
    let mut k: usize = 0;
    while k < n
        invariant
            k <= n,
            n == t@.len(),
            i + n <= out@.len() <= usize::MAX,
            out@.len() == old(out)@.len(),
            out@ =~= splice(old(out)@, i as int, t@.take(k as int)),
        decreases n - k,
    {
        out[i + k] = t[k];
        k = k + 1;
    }
    assert(t@.take(n as int) =~= t@);
}

/// Writes a 16-bit number at byte `i`.
pub fn put_u16(out: &mut [u8], i: usize, v: u16)
    requires
        i + 2 <= old(out)@.len(),
    ensures
        final(out)@ == splice(old(out)@, i as int, be16(v)),
{
    out[i] = (v / 0x100) as u8;
    out[i + 1] = (v % 0x100) as u8;
    assert(out@ =~= splice(old(out)@, i as int, be16(v)));
}

/// Writes a 32-bit number at byte `i`.
pub fn put_u32(out: &mut [u8], i: usize, v: u32)
    requires
        i + 4 <= old(out)@.len(),
    ensures
        final(out)@ == splice(old(out)@, i as int, be32(v)),
{
    proof {
        reveal(be32);
    }
    out[i] = (v / 0x100_0000) as u8;
    out[i + 1] = (v / 0x1_0000 % 0x100) as u8;
    out[i + 2] = (v / 0x100 % 0x100) as u8;
    out[i + 3] = (v % 0x100) as u8;
    assert(out@ =~= splice(old(out)@, i as int, be32(v)));
}

/// Writes a 64-bit number at byte `i`.
pub fn put_u64(out: &mut [u8], i: usize, v: u64)
    requires
        i + 8 <= old(out)@.len(),
    ensures
        final(out)@ == splice(old(out)@, i as int, be64(v)),
{
    proof {
        reveal(be64);
    }
    broadcast use lemma_be32_len;
    assert(out.len() == out@.len());
    put_u32(out, i, (v / 0x1_0000_0000) as u32);
    put_u32(out, i + 4, (v % 0x1_0000_0000) as u32);
    assert(out@ =~= splice(old(out)@, i as int, be64(v)));
}

} // verus!
