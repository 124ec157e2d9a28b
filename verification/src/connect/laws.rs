//! What holds of the connection to the server.
//!
//! Each law speaks of calls: of what goes into them and what comes out.

use super::{
    audio_control_datagram, batch_packets, batch_step, count_sent, encoded_views, gather_batch,
    local_bind_addr, on_server_datagram, packet_views, proves_alive, tries_again,
    unspecified_addr, Attempts, BatchStep, ConnectError, ConnectErrorView, ConnectionEvent,
    DialAction, DialStep, Dialer, DialerView, EncodedFrame, Packet, ServerStep, ServerTarget,
    TargetView,
};
use crate::datagram::batch::{batch_bytes, frame_bytes, frame_error, frames_error, FrameView};
use crate::datagram::laws::num;
use crate::datagram::{lemma_decode_encode, DatagramRef};
use crate::net::{IpAddr, SocketAddr};
use crate::proto::{event_bytes, ProtoEvent, ProtocolError};
use std::collections::VecDeque;
use vstd::prelude::*;

verus! {

/// What the user is told of a failed connection: the cause where there is one,
/// and otherwise a sentence of its own.
pub proof fn lemma_failures_are_told(e: &ConnectError, s: String)
    requires
        call_ensures(ConnectError::to_string, (e,), s),
    ensures
        *e matches ConnectError::Bind(t) ==> s@ == t@,
        *e matches ConnectError::Dtls(t) ==> s@ == t@,
        *e matches ConnectError::Webrtc(t) ==> s@ == t@,
        *e is NotConnected ==> s@ == "not connected"@,
        *e is Timeout ==> s@ == "Connection timed out"@,
        *e is AuthorizationRequired ==> s@
            == "the remote server rejected this certificate; authorize this computer in DeskUnion on the remote machine, then try again"@,
{
}

/// A server is dialed at each of its addresses, in order, on its port.
pub proof fn lemma_every_address_is_dialed(t: &ServerTarget, r: Vec<SocketAddr>, i: int)
    requires
        call_ensures(ServerTarget::addrs, (t,), r),
    ensures
        r@.len() == t.ips@.len(),
        0 <= i < r@.len() ==> match t.ips@[i] {
            IpAddr::V4(ip) => r@[i] == (SocketAddr::V4 { ip, port: t.port }),
            IpAddr::V6(ip) => r@[i] == (SocketAddr::V6 {
                ip,
                port: t.port,
                flowinfo: 0,
                scope_id: 0,
            }),
        },
{
}

/// Targets are the same where they have the same addresses, in order, and the
/// same port.
pub proof fn lemma_same_targets(a: &ServerTarget, b: &ServerTarget, r: bool, i: int)
    requires
        call_ensures(ServerTarget::same, (a, b), r),
    ensures
        r ==> a.port == b.port && a.ips@.len() == b.ips@.len(),
        r && 0 <= i < a.ips@.len() ==> a.ips@[i] == b.ips@[i],
        !r ==> a.port != b.port || a.ips@ != b.ips@,
{
}

/// A dialing socket is bound to the interface that leads to the server, or to
/// any of the same family where that is not known, at a port of no choosing.
pub proof fn lemma_where_dialing_begins(
    addr: SocketAddr,
    routed: Option<SocketAddr>,
    r: SocketAddr,
    any: SocketAddr,
)
    requires
        call_ensures(local_bind_addr, (addr, routed), r),
        call_ensures(unspecified_addr, (addr,), any),
    ensures
        routed matches Some(SocketAddr::V4 { ip, .. }) ==> r == (SocketAddr::V4 { ip, port: 0 }),
        routed matches Some(SocketAddr::V6 { ip, .. }) ==> r == (SocketAddr::V6 {
            ip,
            port: 0,
            flowinfo: 0,
            scope_id: 0,
        }),
        routed is None ==> r == any,
        addr is V4 ==> any == (SocketAddr::V4 { ip: 0, port: 0 }),
        addr is V6 ==> any == (SocketAddr::V6 { ip: 0, port: 0, flowinfo: 0, scope_id: 0 }),
{
}

/// Of several failures the last is kept, unless one was for want of
/// authorization, which nothing replaces. Without any there was nothing to
/// connect to.
pub proof fn lemma_failures_are_weighed(a: &mut Attempts, e: ConnectError, b: Attempts, r: ConnectError)
    requires
        call_ensures(Attempts::failed, (a, e), ()),
        b.best() == final(a).best(),
        call_ensures(Attempts::exhausted, (b,), r),
    ensures
        old(a).best() == Some(ConnectErrorView::AuthorizationRequired) ==> r@
            == ConnectErrorView::AuthorizationRequired,
        old(a).best() != Some(ConnectErrorView::AuthorizationRequired) ==> r@ == e@,
{
}

/// Where no address was tried, the failure is that there is no connection.
pub proof fn lemma_nothing_was_tried(a: Attempts, r: ConnectError)
    requires
        call_ensures(Attempts::new, (), a),
        call_ensures(Attempts::exhausted, (a,), r),
    ensures
        a.best() is None,
        r@ is NotConnected,
{
}

/// A test tries again only where the device was not authorized, and then for
/// 45 seconds.
pub proof fn lemma_when_a_test_tries_again(e: &ConnectError, now_ms: u64, started_ms: u64, r: bool)
    requires
        call_ensures(tries_again, (e, now_ms, started_ms), r),
    ensures
        r <==> *e is AuthorizationRequired && now_ms < started_ms + 45_000,
{
}

/// The times that dialing goes by.
pub proof fn lemma_dialing_times()
    ensures
        super::CONNECTION_TIMEOUT_MS == 5_000,
        super::AUTHORIZATION_RETRY_MS == 15_000,
        super::RECONNECT_INTERVAL_MS == 3_000,
        super::START_RETRANSMIT_MS == 2_000,
        super::AUTHORIZATION_WAIT_MS == 3 * super::AUTHORIZATION_RETRY_MS,
{
}

/// A new connection has no server to dial.
pub proof fn lemma_new_dialer(d: Dialer)
    requires
        call_ensures(Dialer::new, (), d),
    ensures
        d@.conn is None,
        d@.target is None,
        !d@.connecting,
{
}

/// Setting the server that is set does nothing. Setting another one ends the
/// connection, telling the server that the audio ends before closing it, and
/// dials the new server; setting none just ends it.
pub proof fn lemma_server_is_set(
    d: &mut Dialer,
    target: Option<ServerTarget>,
    acts: Vec<DialAction>,
)
    requires
        call_ensures(Dialer::set_server, (d, target), acts),
    ensures
        ({
            let t = match target {
                Some(t) => Some(TargetView { ips: t.ips@, port: t.port }),
                None => None,
            };
            let hung_up = match old(d)@.conn {
                Some(addr) => seq![DialAction::SendAudioStop(addr), DialAction::Close(addr)],
                None => seq![],
            };
            if old(d)@.target == t {
                acts@.len() == 0 && final(d)@ == old(d)@
            } else {
                &&& final(d)@ == (DialerView {
                    conn: None,
                    target: t,
                    connecting: old(d)@.connecting,
                })
                &&& acts@ == if target is Some {
                    hung_up + seq![DialAction::StartDialing]
                } else {
                    hung_up
                }
            }
        }),
{
    if old(d)@.target != super::opt_target(target) && target is Some {
        let hung_up = match old(d)@.conn {
            Some(addr) => seq![DialAction::SendAudioStop(addr), DialAction::Close(addr)],
            None => seq![],
        };
        assert(acts@ =~= hung_up + seq![DialAction::StartDialing]);
    }
}

/// Dialing begins where it is not going on and there is no connection, and is
/// going on from then until it ended.
pub proof fn lemma_one_dialing_at_a_time(d: &mut Dialer, start: bool, e: &mut Dialer)
    requires
        call_ensures(Dialer::ensure_connecting, (d,), start),
        call_ensures(Dialer::dialing_ended, (e,), ()),
    ensures
        start <==> !old(d)@.connecting && old(d)@.conn is None,
        start ==> final(d)@ == (DialerView { connecting: true, ..old(d)@ }),
        !start ==> final(d)@ == old(d)@,
        final(e)@ == (DialerView { connecting: false, ..old(e)@ }),
{
}

/// The server to dial next is the one that is set, as long as an address of it
/// is known.
pub proof fn lemma_next_server(d: &Dialer, t: Option<ServerTarget>, want: TargetView)
    requires
        call_ensures(Dialer::next_target, (d,), t),
    ensures
        d@.target is None ==> t is None,
        d@.target == Some(want) && want.ips.len() == 0 ==> t is None,
        d@.target == Some(want) && want.ips.len() > 0 ==> (t matches Some(x) && x.ips@ == want.ips
            && x.port == want.port),
{
}

/// A connection that came about is served where it leads to the server that is
/// set by then, and closed where it does not; where none came about, dialing
/// goes on.
pub proof fn lemma_what_dialing_comes_to(
    d: &mut Dialer,
    dialed: &ServerTarget,
    addr: Option<SocketAddr>,
    step: DialStep,
)
    requires
        call_ensures(Dialer::dialed, (d, dialed, addr), step),
    ensures
        ({
            let current = old(d)@.target == Some(
                TargetView { ips: dialed.ips@, port: dialed.port },
            );
            match addr {
                None => step == DialStep::RetryLater && final(d)@ == old(d)@,
                Some(a) => if current {
                    step == DialStep::Serve(a) && final(d)@ == (DialerView {
                        conn: Some(a),
                        ..old(d)@
                    })
                } else {
                    step == DialStep::CloseAndRetry && final(d)@ == old(d)@
                },
            }
        }),
{
}

/// A connection that ended is forgotten, where it was the one, and the server
/// is dialed again where one is set.
pub proof fn lemma_what_ending_comes_to(d: &mut Dialer, addr: SocketAddr, redial: bool)
    requires
        call_ensures(Dialer::session_ended, (d, addr), redial),
    ensures
        redial <==> old(d)@.target is Some,
        old(d)@.conn == Some(addr) ==> final(d)@ == (DialerView { conn: None, ..old(d)@ }),
        old(d)@.conn != Some(addr) ==> final(d)@ == old(d)@,
{
}

/// The connection to an address is closed, and the server told before that the
/// audio ends, where there is such a connection; otherwise nothing is done.
pub proof fn lemma_connection_is_closed(
    d: &Dialer,
    addr: SocketAddr,
    acts: Vec<DialAction>,
    there: bool,
)
    requires
        call_ensures(Dialer::close, (d, addr), acts),
        call_ensures(Dialer::is_connected, (d, addr), there),
    ensures
        there <==> d@.conn == Some(addr),
        there ==> acts@ == seq![DialAction::SendAudioStop(addr), DialAction::Close(addr)],
        !there ==> acts@.len() == 0,
{
}

/// An event that the server sends is passed on as it is, but for its greeting,
/// which is just noted.
pub proof fn lemma_server_events_are_passed_on(
    addr: SocketAddr,
    e: ProtoEvent,
    buf: &[u8],
    step: ServerStep,
    alive: bool,
)
    requires
        event_bytes(e).is_prefix_of(buf@),
        call_ensures(on_server_datagram, (addr, buf), step),
        call_ensures(proves_alive, (buf,), alive),
    ensures
        e matches ProtoEvent::Hello { commit } ==> step == ServerStep::Greeted(commit),
        !(e is Hello) ==> step == ServerStep::Tell(ConnectionEvent::Message { addr, event: e }),
        alive <==> e is Ping || e is Hello,
{
    broadcast use {crate::wire::lemma_be32_len, crate::wire::lemma_be64_len};

    let dg = DatagramRef::Event(e);
    assert(event_bytes(e).len() <= 21);
    lemma_decode_encode(dg, 21, buf@);
}

/// Whatever else comes from the server proves it alive to the connection, and
/// nothing to a test.
pub proof fn lemma_other_datagrams_prove_life(
    addr: SocketAddr,
    buf: &[u8],
    step: ServerStep,
    alive: bool,
)
    requires
        buf@.len() == 0 || buf@[0] > 11,
        call_ensures(on_server_datagram, (addr, buf), step),
        call_ensures(proves_alive, (buf,), alive),
    ensures
        step == ServerStep::Tell(ConnectionEvent::PeerAlive { addr }),
        !alive,
{
}

/// The start of the audio is announced with its format, 48 kHz in stereo, and
/// its end without.
pub proof fn lemma_audio_is_announced(start: bool, out: [u8; 7])
    requires
        call_ensures(audio_control_datagram, (start,), out),
    ensures
        out@[0] == 13,
        start ==> out@[1] == 1 && num(out@, 2, 4) == 48_000 && out@[6] == 2,
        !start ==> out@[1] == 0,
{
    crate::datagram::laws::lemma_numbers(out@, 2);
}

/// Frames that wait are sent together with the one that came, in order, at
/// most three at once; the others go on waiting.
pub proof fn lemma_frames_are_gathered(
    first: EncodedFrame,
    queue: &mut VecDeque<EncodedFrame>,
    batch: Vec<EncodedFrame>,
    i: int,
)
    requires
        call_ensures(gather_batch, (first, queue), batch),
    ensures
        batch@.len() + final(queue)@.len() == old(queue)@.len() + 1,
        batch@.len() == if old(queue)@.len() < 2 {
            old(queue)@.len() + 1
        } else {
            3
        },
        batch@[0] == first,
        1 <= i < batch@.len() ==> batch@[i] == old(queue)@[i - 1],
        0 <= i < final(queue)@.len() ==> final(queue)@[i] == old(queue)@[i + batch@.len() - 1],
{
    let all = seq![first] + old(queue)@;
    let got = batch@ + final(queue)@;
    assert(all.len() == got.len());
    assert(batch@[0] == got[0]);
    if 1 <= i < batch@.len() {
        assert(batch@[i] == got[i]);
    }
    if 0 <= i < final(queue)@.len() {
        assert(final(queue)@[i] == got[i + batch@.len()]);
        assert(all[i + batch@.len()] == old(queue)@[i + batch@.len() - 1]);
    }
}

/// A batch that was written goes out as one datagram, one that is too long
/// frame by frame, and one that cannot be written otherwise not at all.
pub proof fn lemma_how_a_batch_is_sent(r: Result<usize, ProtocolError>, s: BatchStep)
    requires
        call_ensures(batch_step, (r,), s),
    ensures
        match r {
            Ok(len) => s == BatchStep::Together(len),
            Err(e) => if e is BufferTooSmall {
                s == BatchStep::Singly
            } else {
                s == BatchStep::Drop(e)
            },
        },
{
}

/// Frames that a datagram can carry together go out in one datagram that says
/// how many there are.
pub proof fn lemma_short_batch_goes_together(batch: &Vec<EncodedFrame>, packets: Vec<Packet>)
    requires
        0 < batch@.len() <= 255,
        forall|i: int| 0 <= i < batch@.len() ==> 0 < (#[trigger] batch@[i]).2@.len() <= 65535,
        batch_bytes(encoded_views(batch@)).len() <= 1200,
        call_ensures(batch_packets, (batch,), packets),
    ensures
        packets@.len() == 1,
        packets@[0].bytes@ == batch_bytes(encoded_views(batch@)),
        packets@[0].frames == batch@.len(),
{
    let v = encoded_views(batch@);
    assert forall|i: int| 0 <= i < v.len() implies frame_error(#[trigger] v[i]) is None by {
        assert(0 < batch@[i].2@.len() <= 65535);
    }
    super::lemma_batch_is_one_datagram(v);
    let all = packet_views(packets@);
    assert(all.len() == packets@.len());
    assert(all[0] == packets@[0]@);
}

/// Frames that are too long together go out one by one, in order, each with
/// its number, time and payload.
pub proof fn lemma_long_batch_goes_one_by_one(
    batch: &Vec<EncodedFrame>,
    packets: Vec<Packet>,
    i: int,
)
    requires
        0 < batch@.len() <= 255,
        forall|i: int| 0 <= i < batch@.len() ==> 0 < (#[trigger] batch@[i]).2@.len() <= 1189,
        batch_bytes(encoded_views(batch@)).len() > 1200,
        call_ensures(batch_packets, (batch,), packets),
        0 <= i < batch@.len(),
    ensures
        packets@.len() == batch@.len(),
        packets@[i].frames == 1,
        packets@[i].bytes@.len() == 11 + batch@[i].2@.len(),
        packets@[i].bytes@[0] == 12,
        num(packets@[i].bytes@, 1, 4) == batch@[i].0,
        num(packets@[i].bytes@, 5, 4) == batch@[i].1,
        num(packets@[i].bytes@, 9, 2) == batch@[i].2@.len(),
        packets@[i].bytes@.skip(11) == batch@[i].2@,
{
    broadcast use crate::wire::lemma_be32_len;

    let v = encoded_views(batch@);
    assert forall|k: int| 0 <= k < v.len() implies super::fits_alone(#[trigger] v[k]) by {
        assert(0 < batch@[k].2@.len() <= 1189);
    }
    super::lemma_long_batch_goes_singly(v);
    let all = packet_views(packets@);
    assert(all.len() == packets@.len());
    assert(all[i] == packets@[i]@);
    let b = packets@[i].bytes@;
    let f = v[i];
    assert(b == seq![12u8] + frame_bytes(f));
    assert(b.subrange(1, 5) =~= crate::wire::be32(f.seq));
    assert(b.subrange(5, 9) =~= crate::wire::be32(f.ts_ms));
    assert(b.subrange(9, 11) =~= crate::wire::be16(f.payload.len() as u16));
    crate::wire::lemma_at32_be32(b, 1, f.seq);
    crate::wire::lemma_at32_be32(b, 5, f.ts_ms);
    crate::wire::lemma_at16_be16(b, 9, f.payload.len() as u16);
    crate::datagram::laws::lemma_numbers(b, 1);
    crate::datagram::laws::lemma_numbers(b, 5);
    crate::datagram::laws::lemma_numbers(b, 9);
    assert(b.skip(11) =~= f.payload);
}

/// Frames count as sent where they were, and the first are told apart.
pub proof fn lemma_sent_frames_are_counted(sent: &mut u64, frames: u64, ok: bool, first: bool)
    requires
        *old(sent) + frames <= u64::MAX,
        call_ensures(count_sent, (sent, frames, ok), first),
    ensures
        ok ==> *final(sent) == *old(sent) + frames,
        !ok ==> *final(sent) == *old(sent),
        first <==> ok && *old(sent) == 0,
{
}

/// A copy of a target is the same target.
pub proof fn lemma_target_is_copied(t: &ServerTarget, u: ServerTarget)
    requires
        call_ensures(<ServerTarget as Clone>::clone, (t,), u),
    ensures
        u.ips@ == t.ips@,
        u.port == t.port,
{
    assert(u@ == t@);
}

/// What cannot be read, of whatever kind, proves the server alive to the
/// connection, and nothing to a test.
pub proof fn lemma_unreadable_datagrams_prove_life(
    addr: SocketAddr,
    buf: &[u8],
    e: ProtocolError,
    step: ServerStep,
    alive: bool,
)
    requires
        call_ensures(
            crate::datagram::decode,
            (buf,),
            Err::<crate::datagram::Datagram, ProtocolError>(e),
        ),
        call_ensures(on_server_datagram, (addr, buf), step),
        call_ensures(proves_alive, (buf,), alive),
    ensures
        step == ServerStep::Tell(ConnectionEvent::PeerAlive { addr }),
        !alive,
{
}

/// A batch without frames, with too many, or with one that no datagram can
/// carry, is not sent.
pub proof fn lemma_what_is_not_sent(batch: &Vec<EncodedFrame>, packets: Vec<Packet>, i: int)
    requires
        batch@.len() == 0 || batch@.len() > 255 || (0 <= i < batch@.len() && (batch@[i].2@.len()
            == 0 || batch@[i].2@.len() > 65535)),
        call_ensures(batch_packets, (batch,), packets),
    ensures
        packets@.len() == 0,
{
    let v = encoded_views(batch@);
    assert(packet_views(packets@).len() == packets@.len());
    assert(v.len() == batch@.len());
    if 0 < batch@.len() <= 255 {
        assert(v[i].payload == batch@[i].2@);
        lemma_some_error(v, i);
    }
}

/// A frame that cannot be carried is reported, it or one before it, and as one
/// of a length that cannot be.
proof fn lemma_some_error(frames: Seq<FrameView>, i: int)
    requires
        0 <= i < frames.len(),
        frame_error(frames[i]) is Some,
    ensures
        frames_error(frames) matches Some(e) && e is InvalidAudioLength,
    decreases frames.len(),
{
    let init = frames.drop_last();
    if i < init.len() {
        assert(init[i] == frames[i]);
        lemma_some_error(init, i);
    } else {
        lemma_errors_of_frames(init);
    }
}

/// What is reported of frames is a length that cannot be.
proof fn lemma_errors_of_frames(frames: Seq<FrameView>)
    ensures
        frames_error(frames) matches Some(e) ==> e is InvalidAudioLength,
    decreases frames.len(),
{
    if frames.len() > 0 {
        lemma_errors_of_frames(frames.drop_last());
    }
}

/// Of frames that are too long together those go out that a datagram can carry
/// alone, in order; the others are left out.
pub proof fn lemma_frames_that_fit_go_alone(
    batch: &Vec<EncodedFrame>,
    packets: Vec<Packet>,
    k: int,
)
    requires
        0 < batch@.len() <= 255,
        forall|i: int| 0 <= i < batch@.len() ==> 0 < (#[trigger] batch@[i]).2@.len() <= 65535,
        batch_bytes(encoded_views(batch@)).len() > 1200,
        call_ensures(batch_packets, (batch,), packets),
    ensures
        ({
            let fit = encoded_views(batch@).filter(|f: FrameView| 0 < f.payload.len() <= 1189);
            &&& packets@.len() == fit.len()
            &&& 0 <= k < fit.len() ==> packets@[k].bytes@ == seq![12u8] + frame_bytes(fit[k])
                && packets@[k].frames == 1
        }),
{
    let v = encoded_views(batch@);
    assert forall|i: int| 0 <= i < v.len() implies frame_error(#[trigger] v[i]) is None by {
        assert(0 < batch@[i].2@.len() <= 65535);
    }
    crate::datagram::batch::lemma_no_frame_error(v);
    let all = packet_views(packets@);
    assert(all.len() == packets@.len());
    lemma_singles_fit(v, k);
    if 0 <= k < packets@.len() {
        assert(all[k] == packets@[k]@);
    }
}

/// The datagrams of frames that are sent alone.
proof fn lemma_singles_fit(frames: Seq<FrameView>, k: int)
    ensures
        ({
            let fit = frames.filter(|f: FrameView| 0 < f.payload.len() <= 1189);
            let out = super::single_packets(frames);
            &&& out.len() == fit.len()
            &&& 0 <= k < fit.len() ==> out[k].bytes == seq![12u8] + frame_bytes(fit[k])
                && out[k].frames == 1
        }),
    decreases frames.len(),
{
    broadcast use crate::wire::lemma_be32_len;

    reveal(Seq::filter);
    if frames.len() > 0 {
        lemma_singles_fit(frames.drop_last(), k);
        let f = frames.last();
        assert(super::fits_alone(f) <==> 0 < f.payload.len() <= 1189);
    }
}

} // verus!
