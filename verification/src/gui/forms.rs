//! What is typed and picked in entries and dialogs.

use crate::ipc::{default_config, ClientConfig, ConfigView, Position, DEFAULT_PORT};
use crate::text::decimal_text;
use vstd::prelude::*;
use vstd::string::StrSliceExecFns;

verus! {

/// The edge at a place of a position picker: left, right, top, bottom.
pub open spec fn picked_position(selected: u32) -> Position {
    if selected == 1 {
        Position::Right
    } else if selected == 2 {
        Position::Top
    } else if selected == 3 {
        Position::Bottom
    } else {
        Position::Left
    }
}

/// The edge at a place of a position picker.
pub fn position_from_selected(selected: u32) -> (p: Position)
    ensures
        p == picked_position(selected),
{
    match selected {
        1 => Position::Right,
        2 => Position::Top,
        3 => Position::Bottom,
        _ => Position::Left,
    }
}

/// The place of an edge in a position picker.
pub fn selected_from_position(pos: Position) -> (i: u32)
    ensures
        i < 4,
        picked_position(i) == pos,
{
    match pos {
        Position::Left => 0,
        Position::Right => 1,
        Position::Top => 2,
        Position::Bottom => 3,
    }
}

/// A character that is blank: the spaces, tabs and line ends of Unicode.
pub open spec fn is_blank(c: char) -> bool {
    let n = c as u32;
    ||| 0x9 <= n <= 0xd
    ||| n == 0x20
    ||| n == 0x85
    ||| n == 0xa0
    ||| n == 0x1680
    ||| 0x2000 <= n <= 0x200a
    ||| n == 0x2028
    ||| n == 0x2029
    ||| n == 0x202f
    ||| n == 0x205f
    ||| n == 0x3000
}

fn blank(c: char) -> (b: bool)
    ensures
        b == is_blank(c),
{
    let n: u32 = c as u32;
    (0x9 <= n && n <= 0xd) || n == 0x20 || n == 0x85 || n == 0xa0 || n == 0x1680 || (0x2000 <= n
        && n <= 0x200a) || n == 0x2028 || n == 0x2029 || n == 0x202f || n == 0x205f || n == 0x3000
}

/// A text without the blanks it starts and ends with.
pub open spec fn trimmed(s: Seq<char>) -> Seq<char>
    decreases s.len(),
{
    if s.len() == 0 {
        s
    } else if is_blank(s[0]) {
        trimmed(s.skip(1))
    } else if is_blank(s.last()) {
        trimmed(s.drop_last())
    } else {
        s
    }
}

/// Drops the blanks that a text starts and ends with.
pub fn trim(s: &str) -> (r: String)
    ensures
        r@ == trimmed(s@),
{
    let n: usize = s.unicode_len();
    let mut from: usize = 0;
    assert(s@.subrange(0, n as int) =~= s@);
    while from < n && blank(s.get_char(from))
        invariant
            from <= n,
            n == s@.len(),
            trimmed(s@) == trimmed(s@.subrange(from as int, n as int)),
        decreases n - from,
    {
        proof {
            let t = s@.subrange(from as int, n as int);
            assert(t[0] == s@[from as int]);
            assert(t.skip(1) =~= s@.subrange(from + 1, n as int));
        }
        from = from + 1;
    }
    let mut to: usize = n;
    while to > from && blank(s.get_char(to - 1))
        invariant
            from <= to <= n,
            n == s@.len(),
            from < n ==> !is_blank(s@[from as int]),
            trimmed(s@) == trimmed(s@.subrange(from as int, to as int)),
        decreases to,
    {
        proof {
            let t = s@.subrange(from as int, to as int);
            assert(t[0] == s@[from as int]);
            assert(t.last() == s@[to - 1]);
            assert(t.drop_last() =~= s@.subrange(from as int, to - 1));
        }
        to = to - 1;
    }
    proof {
        let t = s@.subrange(from as int, to as int);
        if t.len() > 0 {
            assert(t[0] == s@[from as int]);
            assert(t.last() == s@[to - 1]);
        }
    }
    s.substring_char(from, to).to_owned()
}

/// A decimal digit.
pub open spec fn is_digit(c: char) -> bool {
    '0' <= c && c <= '9'
}

/// The number that decimal digits spell.
pub open spec fn digits_value(s: Seq<char>) -> int
    decreases s.len(),
{
    if s.len() == 0 {
        0
    } else {
        digits_value(s.drop_last()) * 10 + (s.last() as u32 - '0' as u32)
    }
}

/// All characters are decimal digits.
pub open spec fn all_digits(s: Seq<char>) -> bool {
    forall|i: int| 0 <= i < s.len() ==> is_digit(#[trigger] s[i])
}

/// The digits of a number that may be written with a plus sign.
pub open spec fn unsigned_digits(s: Seq<char>) -> Seq<char> {
    if s.len() > 1 && s[0] == '+' {
        s.skip(1)
    } else {
        s
    }
}

/// The port number that a text spells: digits, perhaps after a plus sign.
pub open spec fn port_of(s: Seq<char>) -> Option<u16> {
    let d = unsigned_digits(s);
    if d.len() > 0 && all_digits(d) && digits_value(d) <= u16::MAX {
        Some(digits_value(d) as u16)
    } else {
        None
    }
}

/// More digits never spell a smaller number.
pub proof fn lemma_digits_grow(s: Seq<char>, i: int)
    requires
        0 <= i <= s.len(),
        all_digits(s),
    ensures
        0 <= digits_value(s.take(i)) <= digits_value(s),
    decreases s.len(),
{
    if i < s.len() {
        let init = s.drop_last();
        assert(forall|k: int| 0 <= k < init.len() ==> init[k] == s[k]);
        assert(is_digit(s[s.len() - 1]));
        lemma_digits_grow(init, i);
        assert(init.take(i) =~= s.take(i));
    } else {
        assert(s.take(i) =~= s);
        if s.len() > 0 {
            let init = s.drop_last();
            assert(forall|k: int| 0 <= k < init.len() ==> init[k] == s[k]);
            assert(is_digit(s[s.len() - 1]));
            lemma_digits_grow(init, init.len() as int);
            assert(init.take(init.len() as int) =~= init);
        }
    }
}

/// Reads a port number.
pub fn parse_port(s: &str) -> (r: Option<u16>)
    ensures
        r == port_of(s@),
{
    let n: usize = s.unicode_len();
    let from: usize = if n > 1 && s.get_char(0) == '+' {
        1
    } else {
        0
    };
    let ghost d = unsigned_digits(s@);
    assert(d =~= s@.skip(from as int));
    if n == from {
        return None;
    }
    let mut i: usize = from;
    let mut value: u32 = 0;
    assert(d.take(0) =~= seq![]);
    while i < n
        invariant
            from <= i <= n,
            n == s@.len(),
            from <= 1,
            d == unsigned_digits(s@),
            d == s@.skip(from as int),
            d.len() > 0,
            all_digits(d.take(i - from)),
            value == digits_value(d.take(i - from)),
            value <= u16::MAX,
        decreases n - i,
    {
        let c: char = s.get_char(i);
        assert(c == d[i - from]);
        let ghost t = d.take(i + 1 - from);
        assert(t.drop_last() =~= d.take(i - from));
        assert(t.last() == c);
        if !('0' <= c && c <= '9') {
            proof {
                assert(!is_digit(d[i - from]));
            }
            return None;
        }
        value = value * 10 + (c as u32 - '0' as u32);
        assert(all_digits(t)) by {
            assert forall|k: int| 0 <= k < t.len() implies is_digit(#[trigger] t[k]) by {
                if k < i - from {
                    assert(d.take(i - from)[k] == t[k]);
                }
            }
        }
        if value > u16::MAX as u32 {
            proof {
                if all_digits(d) {
                    lemma_digits_grow(d, i + 1 - from);
                }
            }
            return None;
        }
        i = i + 1;
    }
    assert(d.take(i - from) =~= d);
    Some(value as u16)
}

/// How a port shows in an entry: not at all where it is the default.
pub open spec fn port_text(port: u16) -> Seq<char> {
    if port == DEFAULT_PORT {
        seq![]
    } else {
        crate::text::decimal(port as nat)
    }
}

/// How a port shows in an entry.
pub fn port_entry_text(port: u16) -> (s: String)
    ensures
        s@ == port_text(port),
{
    if port == DEFAULT_PORT {
        let s = String::new();
        assert(s@ =~= seq![]);
        s
    } else {
        decimal_text(port as u64)
    }
}

/// The port that is asked for when a client's port entry loses the focus:
/// the default where it is empty, and none where it holds no port.
pub fn port_on_focus_loss(text: &str) -> (r: Option<u16>)
    ensures
        r == if text@.len() == 0 {
            Some(DEFAULT_PORT)
        } else {
            match port_of(text@) {
                Some(p) if p != 0 => Some(p),
                _ => None,
            }
        },
{
    if text.unicode_len() == 0 {
        Some(DEFAULT_PORT)
    } else {
        match parse_port(text) {
            Some(p) => if p != 0 {
                Some(p)
            } else {
                None
            },
            None => None,
        }
    }
}

/// Writing the digits of a number and reading them gives the number back.
pub proof fn lemma_decimal_reads_back(n: nat)
    ensures
        digits_value(crate::text::decimal(n)) == n,
        all_digits(crate::text::decimal(n)),
        crate::text::decimal(n).len() > 0,
    decreases n,
{
    let s = crate::text::decimal(n);
    if n < 10 {
        assert(s =~= seq![crate::text::digit(n)]);
        assert(s.drop_last() =~= seq![]);
        assert(digits_value(s.drop_last()) == 0);
    } else {
        lemma_decimal_reads_back(n / 10);
        let t = crate::text::decimal(n / 10);
        assert(s.drop_last() =~= t);
        assert forall|i: int| 0 <= i < s.len() implies is_digit(#[trigger] s[i]) by {
            if i < t.len() {
                assert(s[i] == t[i]);
            }
        }
    }
}

/// A port that shows in an entry is the port that is read from it. The
/// default shows as nothing, and nothing is read as the default.
pub proof fn lemma_port_entry_reads_back(port: u16)
    ensures
        port != DEFAULT_PORT ==> port_of(port_text(port)) == Some(port),
        port == DEFAULT_PORT ==> port_text(port).len() == 0,
{
    lemma_decimal_reads_back(port as nat);
    let s = crate::text::decimal(port as nat);
    assert(is_digit(s[0]));
}

/// The message where no fingerprint was entered.
pub open spec fn no_fingerprint() -> Seq<char> {
    "Enter the device's certificate fingerprint."@
}

/// The client that is paired in a dialog.
pub open spec fn paired_client(
    fingerprint: Seq<char>,
    name: Seq<char>,
    selected: u32,
) -> ConfigView {
    ConfigView {
        hostname: if trimmed(name).len() == 0 {
            None
        } else {
            Some(trimmed(name))
        },
        pos: picked_position(selected),
        fingerprint: Some(trimmed(fingerprint)),
        ..default_config()
    }
}

/// The client that is paired in a dialog. A fingerprint is needed, a name is
/// not.
pub fn pairing_config(fingerprint: &str, name: &str, selected: u32) -> (r: Result<
    ClientConfig,
    String,
>)
    ensures
        match r {
            Ok(c) => trimmed(fingerprint@).len() > 0 && c@ == paired_client(
                fingerprint@,
                name@,
                selected,
            ),
            Err(e) => trimmed(fingerprint@).len() == 0 && e@ == no_fingerprint(),
        },
{
    let fingerprint = trim(fingerprint);
    if fingerprint.as_str().unicode_len() == 0 {
        return Err("Enter the device's certificate fingerprint.".to_owned());
    }
    let name = trim(name);
    let hostname = if name.as_str().unicode_len() == 0 {
        None
    } else {
        Some(name)
    };
    Ok(
        ClientConfig {
            hostname,
            pos: position_from_selected(selected),
            fingerprint: Some(fingerprint),
            ..ClientConfig::default()
        },
    )
}

/// The description and fingerprint that are authorized in a dialog.
pub fn authorized_key(description: &str, fingerprint: &str) -> (r: (String, String))
    ensures
        r.0@ == trimmed(description@),
        r.1@ == trimmed(fingerprint@),
{
    (trim(description), trim(fingerprint))
}

} // verus!
