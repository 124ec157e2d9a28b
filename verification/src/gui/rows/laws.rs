//! What the rows of the window's lists show.
//!
//! Each law speaks of calls: of what goes into them and what comes out.

use super::{
    before_last_colon, dns_css_class, dns_tooltip, lemma_decimal_has_no_colon,
    lemma_last_colon_before, lemma_row_shows_the_v4_address, peer_commit_to_string,
    same_text_addr, version_css_class, version_subtitle, AudioStreamRowInput, AudioStreamRowModel,
    ClientRowInput, ClientRowModel, ClientRowView, IncomingDeviceRowInput, IncomingDeviceRowModel,
    IncomingRowView, KeyRowModel, ParkedDeviceRowInput, ParkedDeviceRowModel, ParkedRowView,
};
use crate::ipc::{ClientConfig, ClientHandle, ClientState, Position};
use crate::net::{v4_text, SocketAddr};
use crate::text::{decimal, joined, opt_view, views};
use vstd::prelude::*;
use vstd::utf8::{decode_utf8, valid_utf8};

verus! {

/// Addresses are written the same where they have the same address and port
/// and, for a V6 one, the same scope.
pub proof fn lemma_addresses_written_the_same(a: SocketAddr, b: SocketAddr, r: bool)
    requires
        call_ensures(same_text_addr, (a, b), r),
    ensures
        a == b ==> r,
        a is V4 && b is V4 ==> (r <==> a == b),
        a is V4 != b is V4 ==> !r,
        a is V6 && b is V6 ==> (r <==> a->V6_ip == b->V6_ip && a->V6_port == b->V6_port
            && a->V6_scope_id == b->V6_scope_id),
{
}

/// A new row shows its client as it is, without audio.
pub proof fn lemma_new_row_shows_its_client(
    h: ClientHandle,
    config: ClientConfig,
    state: ClientState,
    r: ClientRowModel,
)
    requires
        call_ensures(ClientRowModel::new, (h, config, state), r),
    ensures
        r@ == (ClientRowView {
            handle: h,
            hostname: opt_view(config.hostname),
            port: config.port,
            position: config.pos,
            active: state.active,
            active_addr: state.active_addr,
            audio_active: false,
            audio_latency_ms: None,
        }),
{
}

/// A row takes over what it is told, and keeps the rest.
pub proof fn lemma_row_takes_over(r: &mut ClientRowModel, m: ClientRowInput)
    requires
        call_ensures(ClientRowModel::update, (r, m), ()),
    ensures
        final(r)@ == match m {
            ClientRowInput::SetConfig(c) => ClientRowView {
                hostname: opt_view(c.hostname),
                port: c.port,
                position: c.pos,
                ..old(r)@
            },
            ClientRowInput::SetState(s) => ClientRowView {
                active: s.active,
                active_addr: s.active_addr,
                ..old(r)@
            },
            ClientRowInput::SetAudioStats { active, latency_ms } => ClientRowView {
                audio_active: active,
                audio_latency_ms: latency_ms,
                ..old(r)@
            },
            ClientRowInput::SetPosition(position) => ClientRowView { position, ..old(r)@ },
        },
{
}

/// What is read of a row is what it shows.
pub proof fn lemma_row_is_read(
    r: &ClientRowModel,
    handle: ClientHandle,
    audio: bool,
    position: Position,
    active: bool,
    port: u16,
    addr: Option<SocketAddr>,
    connected: bool,
)
    requires
        call_ensures(ClientRowModel::handle, (r,), handle),
        call_ensures(ClientRowModel::audio_active, (r,), audio),
        call_ensures(ClientRowModel::position, (r,), position),
        call_ensures(ClientRowModel::active, (r,), active),
        call_ensures(ClientRowModel::port, (r,), port),
        call_ensures(ClientRowModel::active_addr, (r,), addr),
        call_ensures(ClientRowModel::connected, (r,), connected),
    ensures
        handle == r@.handle,
        audio == r@.audio_active,
        position == r@.position,
        active == r@.active,
        port == r@.port,
        addr == r@.active_addr,
        connected <==> r@.active_addr is Some,
{
}

/// A row's title is the client's name, or says that there is none; its port
/// shows unless it is the default.
pub proof fn lemma_row_title(
    r: &ClientRowModel,
    name: Option<&str>,
    title: String,
    port: String,
)
    requires
        call_ensures(ClientRowModel::hostname, (r,), name),
        call_ensures(ClientRowModel::display_title, (r,), title),
        call_ensures(ClientRowModel::port_text, (r,), port),
    ensures
        r@.hostname is Some <==> name is Some,
        name matches Some(n) ==> r@.hostname == Some(n@) && title@ == n@,
        name is None ==> title@
            == "<span font_style=\"italic\" font_weight=\"light\" foreground=\"darkgrey\">no hostname!</span>"@,
        r@.port == 4242 ==> port@.len() == 0,
        r@.port != 4242 ==> port@ == decimal(r@.port as nat),
{
}

/// Two texts with something between them.
pub proof fn lemma_two_joined(a: Seq<char>, b: Seq<char>, sep: Seq<char>)
    ensures
        joined(seq![a, b], sep) == a + sep + b,
{
    reveal_with_fuel(joined, 3);
    assert(seq![a, b].drop_last() =~= seq![a]);
}

/// Three texts with something between them.
pub proof fn lemma_three_joined(a: Seq<char>, b: Seq<char>, c: Seq<char>, sep: Seq<char>)
    ensures
        joined(seq![a, b, c], sep) == a + sep + b + sep + c,
{
    lemma_two_joined(a, b, sep);
    assert(seq![a, b, c].drop_last() =~= seq![a, b]);
}

/// The line below the title says where the client is connected from, how far
/// its audio lags, that the connection is encrypted, and that audio is sent.
pub proof fn lemma_row_subtitle(r: &ClientRowModel, v6: &str, ip: u32, port: u16, s: String)
    requires
        call_ensures(ClientRowModel::connection_subtitle, (r, v6), s),
    ensures
        r@.active_addr is None ==> s@.len() == 0,
        r@.active_addr == Some(SocketAddr::V4 { ip, port }) && !r@.audio_active ==> s@ == v4_text(
            ip,
        ) + " · "@ + "TLS active"@,
        r@.active_addr == Some(SocketAddr::V4 { ip, port }) && r@.audio_active
            && r@.audio_latency_ms is None ==> s@ == v4_text(ip) + " · "@ + "TLS active"@ + " · "@
            + "sending audio"@,
        r@.active_addr == Some(SocketAddr::V4 { ip, port }) && r@.audio_active
            && r@.audio_latency_ms is Some ==> s@ == v4_text(ip) + " · "@ + ("latency "@ + decimal(
            r@.audio_latency_ms->0 as nat,
        ) + " ms"@) + " · "@ + "TLS active"@ + " · "@ + "sending audio"@,
{
    let t = v4_text(ip);
    let sep = " · "@;
    lemma_row_shows_the_v4_address(ip, port, v6@);
    if r@.active_addr == Some(SocketAddr::V4 { ip, port }) {
        let parts = r@.subtitle_parts(t);
        if !r@.audio_active {
            assert(parts =~= seq![t, "TLS active"@]);
            lemma_two_joined(t, "TLS active"@, sep);
        } else if r@.audio_latency_ms is None {
            assert(parts =~= seq![t, "TLS active"@, "sending audio"@]);
            lemma_three_joined(t, "TLS active"@, "sending audio"@, sep);
        } else {
            let lag = "latency "@ + decimal(r@.audio_latency_ms->0 as nat) + " ms"@;
            assert(parts =~= seq![t, lag, "TLS active"@, "sending audio"@]);
            lemma_three_joined(t, lag, "TLS active"@, sep);
            assert(parts.drop_last() =~= seq![t, lag, "TLS active"@]);
            assert(joined(parts, sep) == joined(parts.drop_last(), sep) + sep + parts.last());
        }
    }
}

/// A peer's build is the text it greeted with, where that is text.
pub proof fn lemma_peer_build(commit: Option<[u8; 8]>, r: Option<String>)
    requires
        call_ensures(peer_commit_to_string, (commit,), r),
    ensures
        commit is None ==> r is None,
        commit matches Some(c) ==> (r is Some <==> valid_utf8(c@)),
        commit matches Some(c) ==> (r matches Some(s) ==> s@ == decode_utf8(c@)),
{
}

/// A peer's build is compared with this one: matched, another, or unknown.
pub proof fn lemma_builds_are_compared(
    peer: &Option<String>,
    local: &str,
    s: String,
    class: &'static str,
)
    requires
        call_ensures(version_subtitle, (peer, local), s),
        call_ensures(version_css_class, (peer, local), class),
    ensures
        *peer is None ==> s@ == "Peer version: unknown · Ours: "@ + local@ && class@
            == "peer-unknown"@,
        *peer matches Some(p) ==> (p@ == local@ ==> s@ == "Peer version: "@ + p@ + " · matched"@
            && class@ == "peer-match"@),
        *peer matches Some(p) ==> (p@ != local@ ==> s@ == "Peer version: "@ + p@ + " · Ours: "@
            + local@ && class@ == "peer-mismatch"@),
{
}

/// A client's addresses are listed one below the other; that it has none is
/// said, and marked.
pub proof fn lemma_addresses_are_listed(ips: &Vec<String>, s: String, class: &'static str)
    requires
        call_ensures(dns_tooltip, (ips,), s),
        call_ensures(dns_css_class, (ips,), class),
    ensures
        ips@.len() == 0 ==> s@ == "no ip addresses associated with this client"@ && class@
            == "warning"@,
        ips@.len() > 0 ==> s@ == joined(views(ips@), "\n"@) && class@ == "success"@,
        ips@.len() == 1 ==> s@ == ips@[0]@,
        ips@.len() == 2 ==> s@ == ips@[0]@ + "\n"@ + ips@[1]@,
{
    let v = views(ips@);
    if ips@.len() == 2 {
        assert(v =~= seq![ips@[0]@, ips@[1]@]);
        lemma_two_joined(ips@[0]@, ips@[1]@, "\n"@);
    }
}

/// The row of a device that entered shows it as it is, and takes over where it
/// enters again.
pub proof fn lemma_incoming_rows(
    id: u64,
    addr: SocketAddr,
    position: Option<Position>,
    f: String,
    new: IncomingDeviceRowModel,
    r: &mut IncomingDeviceRowModel,
    p: Position,
    g: String,
)
    requires
        call_ensures(IncomingDeviceRowModel::new, (id, addr, position, f), new),
        call_ensures(
            IncomingDeviceRowModel::update,
            (r, IncomingDeviceRowInput::Entered { position: p, fingerprint: g }),
            (),
        ),
    ensures
        new@ == (IncomingRowView { id, addr, position, fingerprint: f@ }),
        final(r)@ == (IncomingRowView {
            id: old(r)@.id,
            addr: old(r)@.addr,
            position: Some(p),
            fingerprint: g@,
        }),
{
}

/// The row of a device that entered says at which edge, and which it is.
pub proof fn lemma_incoming_row_is_read(
    r: &IncomingDeviceRowModel,
    id: u64,
    addr: SocketAddr,
    s: String,
)
    requires
        call_ensures(IncomingDeviceRowModel::id, (r,), id),
        call_ensures(IncomingDeviceRowModel::addr, (r,), addr),
        call_ensures(IncomingDeviceRowModel::subtitle, (r,), s),
    ensures
        id == r@.id,
        addr == r@.addr,
        r@.position is None ==> s@ == "Connected · "@ + r@.fingerprint,
        r@.position == Some(Position::Left) ==> s@ == "Connected · "@ + "left"@ + " · "@
            + r@.fingerprint,
        r@.position == Some(Position::Right) ==> s@ == "Connected · "@ + "right"@ + " · "@
            + r@.fingerprint,
        r@.position == Some(Position::Top) ==> s@ == "Connected · "@ + "top"@ + " · "@
            + r@.fingerprint,
        r@.position == Some(Position::Bottom) ==> s@ == "Connected · "@ + "bottom"@ + " · "@
            + r@.fingerprint,
{
}

/// The row of a device that waits offers the right edge first, then the one
/// that is picked.
pub proof fn lemma_parked_rows(
    f: String,
    new: ParkedDeviceRowModel,
    r: &mut ParkedDeviceRowModel,
    p: Position,
    q: &ParkedDeviceRowModel,
    name: &str,
    position: Position,
    s: String,
)
    requires
        call_ensures(ParkedDeviceRowModel::new, (f,), new),
        call_ensures(
            ParkedDeviceRowModel::update,
            (r, ParkedDeviceRowInput::SetPosition(p)),
            (),
        ),
        call_ensures(ParkedDeviceRowModel::fingerprint, (q,), name),
        call_ensures(ParkedDeviceRowModel::position, (q,), position),
        call_ensures(ParkedDeviceRowModel::subtitle, (q,), s),
    ensures
        new@ == (ParkedRowView { fingerprint: f@, position: Position::Right }),
        final(r)@ == (ParkedRowView { fingerprint: old(r)@.fingerprint, position: p }),
        name@ == q@.fingerprint,
        position == q@.position,
        s@ == q@.fingerprint + " · waiting for a screen position"@,
{
}

/// The row of an audio stream shows how it stands, and that of an authorized
/// device which it is.
pub proof fn lemma_stream_and_key_rows(
    r: &mut AudioStreamRowModel,
    latency_ms: u32,
    packets_lost: u64,
    level: u32,
    q: &AudioStreamRowModel,
    s: String,
    d: String,
    f: String,
    k: KeyRowModel,
    l: &KeyRowModel,
    kd: &str,
    kf: &str,
)
    requires
        call_ensures(
            AudioStreamRowModel::update,
            (r, AudioStreamRowInput::UpdateStats { latency_ms, packets_lost, level }),
            (),
        ),
        call_ensures(AudioStreamRowModel::subtitle, (q,), s),
        call_ensures(KeyRowModel::new, (d, f), k),
        call_ensures(KeyRowModel::description, (l,), kd),
        call_ensures(KeyRowModel::fingerprint, (l,), kf),
    ensures
        *final(r) == (AudioStreamRowModel {
            id: old(r).id,
            addr: old(r).addr,
            latency_ms,
            packets_lost,
            level,
        }),
        s@ == decimal(q.latency_ms as nat) + " ms · "@ + decimal(q.packets_lost as nat)
            + " lost"@,
        k@ == (d@, f@),
        kd@ == l@.0,
        kf@ == l@.1,
{
}

/// Of a V6 address, too, the line shows what stands before the port.
pub proof fn lemma_row_subtitle_v6(
    r: &ClientRowModel,
    v6: &str,
    host: Seq<char>,
    port: u16,
    s: String,
)
    requires
        v6@ == host + ":"@ + decimal(port as nat),
        r@.active_addr matches Some(a) && a is V6,
        call_ensures(ClientRowModel::connection_subtitle, (r, v6), s),
    ensures
        !r@.audio_active ==> s@ == host + " · "@ + "TLS active"@,
        r@.audio_active && r@.audio_latency_ms is None ==> s@ == host + " · "@ + "TLS active"@
            + " · "@ + "sending audio"@,
{
    reveal_strlit(":");
    let a = host + ":"@;
    lemma_decimal_has_no_colon(port as nat);
    lemma_last_colon_before(a, decimal(port as nat));
    assert(a.last() == ':');
    assert(v6@.take(host.len() as int) =~= host);
    assert(before_last_colon(v6@) == host);
    let parts = r@.subtitle_parts(host);
    let sep = " · "@;
    if !r@.audio_active {
        assert(parts =~= seq![host, "TLS active"@]);
        lemma_two_joined(host, "TLS active"@, sep);
    } else if r@.audio_latency_ms is None {
        assert(parts =~= seq![host, "TLS active"@, "sending audio"@]);
        lemma_three_joined(host, "TLS active"@, "sending audio"@, sep);
    }
}

} // verus!
