//! What holds of texts and of what is written in them.
//!
//! Each law speaks of calls: of what goes into them and what comes out.

use super::{
    bool_text, chars_of, clone_map, clone_opt, concat2, concat3, decimal, decimal_text,
    fingerprint_string, fingerprint_text, hex_byte, is_at, join, joined, opt_is, opt_view, same,
    same_opt, views, TextMap,
};
use vstd::prelude::*;

verus! {

/// Texts are the same where their characters are.
pub proof fn lemma_same_texts(
    a: &str,
    b: &str,
    r: bool,
    x: &Option<String>,
    y: &Option<String>,
    s: bool,
    t: bool,
    c: Option<String>,
)
    requires
        call_ensures(same, (a, b), r),
        call_ensures(same_opt, (x, y), s),
        call_ensures(opt_is, (x, a), t),
        call_ensures(clone_opt, (x,), c),
    ensures
        r <==> a@ == b@,
        *x is None && *y is None ==> s,
        x is Some != y is Some ==> !s,
        *x is Some && *y is Some ==> (s <==> x->0@ == y->0@),
        *x is None ==> !t,
        *x is Some ==> (t <==> x->0@ == a@),
        opt_view(c) == opt_view(*x),
{
}

/// The number of a decimal digit.
pub open spec fn digit_value(c: char) -> int {
    c as int - '0' as int
}

/// A number is written in decimal digits, as short as can be: the last one is
/// its remainder by ten, and those before it are the rest.
pub proof fn lemma_numbers_are_written(n: u64, s: String, rest: String)
    requires
        call_ensures(decimal_text, (n,), s),
        call_ensures(decimal_text, (n / 10,), rest),
    ensures
        s@.len() > 0,
        '0' <= s@.last() && s@.last() <= '9',
        digit_value(s@.last()) == n % 10,
        n < 10 ==> s@.len() == 1,
        n >= 10 ==> s@.drop_last() == rest@,
        n > 0 ==> s@[0] != '0',
{
    if n >= 10 {
        assert(decimal(n as nat).drop_last() =~= decimal((n / 10) as nat));
    }
    if n > 0 {
        lemma_no_leading_zero(n as nat);
    }
}

/// No number but zero begins with a zero.
proof fn lemma_no_leading_zero(n: nat)
    requires
        n > 0,
    ensures
        decimal(n).len() > 0,
        decimal(n)[0] != '0',
    decreases n,
{
    if n >= 10 {
        lemma_no_leading_zero(n / 10);
    }
}

/// The characters of a text, and where one stands in another.
pub proof fn lemma_characters(s: &str, v: Vec<char>, a: &Vec<char>, i: usize, p: &Vec<char>, b: bool)
    requires
        call_ensures(chars_of, (s,), v),
        call_ensures(is_at, (a, i, p), b),
    ensures
        v@ == s@,
        b <==> i + p@.len() <= a@.len() && forall|j: int|
            0 <= j < p@.len() ==> #[trigger] a@[i + j] == p@[j],
{
    if b {
        assert forall|j: int| 0 <= j < p@.len() implies #[trigger] a@[i + j] == p@[j] by {
            assert(a@.subrange(i as int, i + p@.len())[j] == a@[i + j]);
        }
    }
    if i + p@.len() <= a@.len() && (forall|j: int|
        0 <= j < p@.len() ==> #[trigger] a@[i + j] == p@[j]) {
        assert forall|j: int| 0 <= j < p@.len() implies a@.subrange(i as int, i + p@.len())[j]
            == p@[j] by {
            assert(a@[i + j] == p@[j]);
        }
        assert(a@.subrange(i as int, i + p@.len()) =~= p@);
    }
}

/// Texts are put together in order, and truth values are written as such.
pub proof fn lemma_texts_are_put_together(
    a: &str,
    b: &str,
    c: &str,
    two: String,
    three: String,
    t: bool,
    w: &'static str,
)
    requires
        call_ensures(concat2, (a, b), two),
        call_ensures(concat3, (a, b, c), three),
        call_ensures(bool_text, (t,), w),
    ensures
        two@ == a@ + b@,
        three@ == a@ + b@ + c@,
        t ==> w@ == "true"@,
        !t ==> w@ == "false"@,
{
}

/// Texts that are joined stand in order with the separator between: none gives
/// nothing, one itself, and one more is added behind a separator.
pub proof fn lemma_texts_are_joined(
    parts: &Vec<String>,
    more: &Vec<String>,
    sep: &str,
    s: String,
    t: String,
)
    requires
        call_ensures(join, (parts, sep), s),
        call_ensures(join, (more, sep), t),
        more@.len() == parts@.len() + 1,
        more@.drop_last() == parts@,
    ensures
        parts@.len() == 0 ==> s@.len() == 0 && t@ == more@[0]@,
        parts@.len() > 0 ==> t@ == s@ + sep@ + more@.last()@,
{
    let p = views(parts@);
    let m = views(more@);
    assert(m.drop_last() =~= p) by {
        assert forall|i: int| 0 <= i < p.len() implies m[i] == p[i] by {
            assert(more@.drop_last()[i] == more@[i]);
        }
    }
}

/// The number of a hexadecimal digit in lower case.
pub open spec fn hex_value(c: char) -> int {
    if 'a' <= c && c <= 'f' {
        c as int - 'a' as int + 10
    } else {
        c as int - '0' as int
    }
}

/// A character is a hexadecimal digit in lower case.
pub open spec fn is_hex(c: char) -> bool {
    ('0' <= c && c <= '9') || ('a' <= c && c <= 'f')
}

/// A byte is written in two hexadecimal digits.
proof fn lemma_hex_byte(b: u8)
    ensures
        hex_byte(b).len() == 2,
        is_hex(hex_byte(b)[0]) && is_hex(hex_byte(b)[1]),
        hex_value(hex_byte(b)[0]) * 16 + hex_value(hex_byte(b)[1]) == b,
{
    let hi = (b / 16) as nat;
    let lo = (b % 16) as nat;
    assert(b == hi * 16 + lo);
    lemma_hex_digit(hi);
    lemma_hex_digit(lo);
}

/// A number below sixteen is written in one hexadecimal digit.
proof fn lemma_hex_digit(d: nat)
    requires
        d < 16,
    ensures
        is_hex(super::hex_digit(d)),
        hex_value(super::hex_digit(d)) == d,
{
}

/// The bytes of a hash stand in pairs of digits, with colons between.
proof fn lemma_fingerprint(hash: Seq<u8>, i: int)
    requires
        hash.len() > 0,
        0 <= i < hash.len(),
    ensures
        ({
            let s = fingerprint_text(hash);
            &&& s.len() == 3 * hash.len() - 1
            &&& is_hex(s[3 * i]) && is_hex(s[3 * i + 1])
            &&& hex_value(s[3 * i]) * 16 + hex_value(s[3 * i + 1]) == hash[i]
            &&& i + 1 < hash.len() ==> s[3 * i + 2] == ':'
        }),
    decreases hash.len(),
{
    reveal_strlit(":");
    let f = |b: u8| hex_byte(b);
    let parts = hash.map_values(f);
    let n = (hash.len() - 1) as int;
    lemma_hex_byte(hash[n]);
    if hash.len() > 1 {
        let init = hash.drop_last();
        assert(parts.drop_last() =~= init.map_values(f));
        let s = fingerprint_text(hash);
        let t = fingerprint_text(init);
        assert(s == t + ":"@ + hex_byte(hash[n]));
        if i < n {
            lemma_fingerprint(init, i);
            assert(s[3 * i] == t[3 * i] && s[3 * i + 1] == t[3 * i + 1]);
            if i + 1 < n {
                assert(s[3 * i + 2] == t[3 * i + 2]);
            } else {
                assert(s[3 * i + 2] == ":"@[0]);
            }
        } else {
            lemma_fingerprint(init, 0);
            assert(s[3 * i] == hex_byte(hash[n])[0]);
            assert(s[3 * i + 1] == hex_byte(hash[n])[1]);
        }
    } else {
        assert(parts[0] == hex_byte(hash[0]));
    }
}

/// The hash of a certificate is written byte by byte: two hexadecimal digits
/// for each, in lower case, and colons between.
pub proof fn lemma_fingerprints_are_written(hash: &Vec<u8>, s: String, i: int)
    requires
        call_ensures(fingerprint_string, (hash,), s),
    ensures
        hash@.len() == 0 ==> s@.len() == 0,
        hash@.len() > 0 ==> s@.len() == 3 * hash@.len() - 1,
        0 <= i < hash@.len() ==> {
            &&& is_hex(s@[3 * i]) && is_hex(s@[3 * i + 1])
            &&& hex_value(s@[3 * i]) * 16 + hex_value(s@[3 * i + 1]) == hash@[i]
            &&& i + 1 < hash@.len() ==> s@[3 * i + 2] == ':'
        },
{
    if hash@.len() > 0 {
        lemma_fingerprint(
            hash@,
            if 0 <= i < hash@.len() {
                i
            } else {
                0
            },
        );
    }
}

/// A map from texts keeps what is put in, under its text, until it is replaced
/// or taken out.
pub proof fn lemma_text_maps<V>(
    new: TextMap<V>,
    m: &mut TextMap<V>,
    k: String,
    v: V,
    r: &mut TextMap<V>,
    f: &str,
    gone: Option<V>,
    q: &TextMap<V>,
    got: Option<&V>,
    has: bool,
    n: usize,
)
    requires
        call_ensures(TextMap::<V>::new, (), new),
        call_ensures(TextMap::<V>::insert, (m, k, v), ()),
        call_ensures(TextMap::<V>::remove, (r, f), gone),
        call_ensures(TextMap::<V>::get, (q, f), got),
        call_ensures(TextMap::<V>::contains_key, (q, f), has),
        call_ensures(TextMap::<V>::len, (q,), n),
    ensures
        new@ == Map::<Seq<char>, V>::empty(),
        final(m)@ == old(m)@.insert(k@, v),
        final(r)@ == old(r)@.remove(f@),
        gone is Some <==> old(r)@.contains_key(f@),
        gone is Some ==> gone->0 == old(r)@[f@],
        got is Some <==> q@.contains_key(f@),
        got is Some ==> *got->0 == q@[f@],
        has <==> q@.contains_key(f@),
        n == q@.len(),
{
}

/// A copy of a map holds the same.
pub proof fn lemma_text_map_is_copied(m: &TextMap<String>, r: TextMap<String>)
    requires
        call_ensures(clone_map, (m,), r),
    ensures
        r@ == m@,
{
}

/// Each entry of a map can be read by its place: its text and what is kept
/// under it.
pub proof fn lemma_text_map_entries<V>(m: &TextMap<V>, i: usize, e: (&String, &V))
    requires
        i < m.entries_view().len(),
        call_ensures(TextMap::<V>::entry, (m, i), e),
    ensures
        m@.contains_key(e.0@),
        m@[e.0@] == *e.1,
{
}

} // verus!
