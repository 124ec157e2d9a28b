//! What holds of what the service and its frontends exchange.
//!
//! Each law speaks of calls: of what goes into them and what comes out.

use super::{
    clone_ips, flagged, lemma_position_text_injective, old_socket, position_text, retain_live,
    AudioDeviceInfo, ClientConfig, ClientState, OldSocket, OperationMode, Position, PositionParseError, Status,
};
use crate::net::IpAddr;
use crate::text::opt_view;
use vstd::prelude::*;

verus! {

/// The edge across is the one on the other side.
pub proof fn lemma_edges_across(p: Position, r: Position)
    requires
        call_ensures(Position::opposite, (&p,), r),
    ensures
        p == Position::Left ==> r == Position::Right,
        p == Position::Right ==> r == Position::Left,
        p == Position::Top ==> r == Position::Bottom,
        p == Position::Bottom ==> r == Position::Top,
{
}

/// Edges and roles are written by their names.
pub proof fn lemma_names_are_written(
    p: Position,
    s: &'static str,
    t: String,
    m: OperationMode,
    n: &'static str,
)
    requires
        call_ensures(Position::as_str, (&p,), s),
        call_ensures(Position::to_string, (&p,), t),
        call_ensures(OperationMode::name, (m,), n),
    ensures
        t@ == s@,
        p == Position::Left ==> s@ == "left"@,
        p == Position::Right ==> s@ == "right"@,
        p == Position::Top ==> s@ == "top"@,
        p == Position::Bottom ==> s@ == "bottom"@,
        m == OperationMode::Unconfigured ==> n@ == "Unconfigured"@,
        m == OperationMode::Server ==> n@ == "Server"@,
        m == OperationMode::Client ==> n@ == "Client"@,
{
}

/// An edge is read from its name, and from nothing else; what names none is
/// told in the message.
pub proof fn lemma_edges_are_read(
    s: &str,
    p: Position,
    r: Result<Position, PositionParseError>,
    q: Result<Position, ()>,
    e: &PositionParseError,
    text: String,
)
    requires
        call_ensures(Position::from_str, (s,), r),
        call_ensures(Position::try_from, (s,), q),
        call_ensures(PositionParseError::to_string, (e,), text),
    ensures
        s@ == (match p {
            Position::Left => "left"@,
            Position::Right => "right"@,
            Position::Top => "top"@,
            Position::Bottom => "bottom"@,
        }) ==> (r matches Ok(x) && x == p) && q == Ok::<Position, ()>(p),
        s@ != "left"@ && s@ != "right"@ && s@ != "top"@ && s@ != "bottom"@ ==> (r matches Err(x)
            && x.text() == s@) && q is Err,
        text@ == "not a valid position: "@ + e.text(),
{
    if s@ == position_text(p) {
        if let Ok(x) = r {
            lemma_position_text_injective(x, p);
        }
        if let Ok(x) = q {
            lemma_position_text_injective(x, p);
        }
    }
}

/// At first there is no role, edges are left, nothing runs, and a client is
/// reached on port 4242 with nothing else known of it.
pub proof fn lemma_defaults(
    m: OperationMode,
    p: Position,
    s: Status,
    c: ClientConfig,
    t: ClientState,
)
    requires
        call_ensures(<OperationMode as Default>::default, (), m),
        call_ensures(<Position as Default>::default, (), p),
        call_ensures(<Status as Default>::default, (), s),
        call_ensures(<ClientConfig as Default>::default, (), c),
        call_ensures(<ClientState as Default>::default, (), t),
    ensures
        m == OperationMode::Unconfigured,
        p == Position::Left,
        s == Status::Disabled,
        c.hostname is None && c.fix_ips@.len() == 0 && c.port == 4242,
        c.pos == Position::Left && c.cmd is None && c.fingerprint is None,
        !t.active && t.active_addr is None && !t.alive && t.dns_ips@.len() == 0,
        t.ips@ == Set::<IpAddr>::empty() && !t.has_pressed_keys && !t.resolving,
        t.peer_commit is None,
{
    assert(c@.fix_ips.len() == 0);
    assert(t@.dns_ips.len() == 0);
}

/// What is kept of a list, when one more is added to it.
proof fn lemma_flagged_push<T>(items: Seq<T>, keep: Seq<bool>)
    requires
        items.len() == keep.len(),
        items.len() > 0,
    ensures
        flagged(items, keep) == if keep.last() {
            flagged(items.drop_last(), keep.drop_last()).push(items.last())
        } else {
            flagged(items.drop_last(), keep.drop_last())
        },
    decreases items.len(),
{
    if items.len() == 1 {
        assert(flagged(items.skip(1), keep.skip(1)) =~= seq![]);
        assert(flagged(items.drop_last(), keep.drop_last()) =~= seq![]);
        assert(seq![items[0]] + seq![] =~= Seq::<T>::empty().push(items.last()));
    } else {
        lemma_flagged_push(items.skip(1), keep.skip(1));
        assert(items.skip(1).drop_last() =~= items.drop_last().skip(1));
        assert(keep.skip(1).drop_last() =~= keep.drop_last().skip(1));
        let rest = flagged(items.skip(1).drop_last(), keep.skip(1).drop_last());
        assert(seq![items[0]] + rest.push(items.last()) =~= (seq![items[0]] + rest).push(
            items.last(),
        ));
    }
}

/// Just the frontends that could be written to are kept, in order: all where
/// all could, none where none could, and of one more, it alone is decided.
pub proof fn lemma_live_frontends_are_kept<T>(
    items: Vec<T>,
    keep: &Vec<bool>,
    r: Vec<T>,
    fewer: Vec<T>,
    before: &Vec<bool>,
    q: Vec<T>,
)
    requires
        items@.len() == keep@.len(),
        call_ensures(retain_live::<T>, (items, keep), r),
        items@.len() > 0,
        fewer@ == items@.drop_last(),
        before@ == keep@.drop_last(),
        call_ensures(retain_live::<T>, (fewer, before), q),
    ensures
        keep@.last() ==> r@ == q@.push(items@.last()),
        !keep@.last() ==> r@ == q@,
        fewer@.len() == 0 ==> q@.len() == 0,
{
    lemma_flagged_push(items@, keep@);
}

/// A socket that nobody answers on is removed; one that is answered on means
/// that the service runs.
pub proof fn lemma_old_sockets(found: bool, answers: bool, s: OldSocket)
    requires
        call_ensures(old_socket, (found, answers), s),
    ensures
        !found ==> s == OldSocket::Bind,
        found && answers ==> s == OldSocket::AlreadyRunning,
        found && !answers ==> s == OldSocket::RemoveAndBind,
{
}

/// A copy of a list of addresses is the same list.
pub proof fn lemma_addresses_are_copied(ips: &Vec<IpAddr>, r: Vec<IpAddr>)
    requires
        call_ensures(clone_ips, (ips,), r),
    ensures
        r@ == ips@,
{
}

/// Copies are the same.
pub proof fn lemma_copies_are_the_same(
    c: &ClientConfig,
    d: ClientConfig,
    s: &ClientState,
    t: ClientState,
    a: &AudioDeviceInfo,
    b: AudioDeviceInfo,
)
    requires
        call_ensures(<ClientConfig as Clone>::clone, (c,), d),
        call_ensures(<ClientState as Clone>::clone, (s,), t),
        call_ensures(<AudioDeviceInfo as Clone>::clone, (a,), b),
    ensures
        opt_view(d.hostname) == opt_view(c.hostname) && d.fix_ips@ == c.fix_ips@,
        d.port == c.port && d.pos == c.pos,
        opt_view(d.cmd) == opt_view(c.cmd) && opt_view(d.fingerprint) == opt_view(c.fingerprint),
        t.active == s.active && t.active_addr == s.active_addr && t.alive == s.alive,
        t.dns_ips@ == s.dns_ips@ && t.ips@ == s.ips@ && t.resolving == s.resolving,
        t.has_pressed_keys == s.has_pressed_keys && t.peer_commit == s.peer_commit,
        b.id@ == a.id@ && b.name@ == a.name@ && b.is_monitor == a.is_monitor && b.is_default
            == a.is_default,
{
    assert(d@ == c@ && t@ == s@ && b@ == a@);
}

} // verus!
