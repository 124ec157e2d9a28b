//! What holds of the connections that a server accepts.
//!
//! Each law speaks of calls: of what goes into them and what comes out.

use super::{
    announced_or_default_format, find_route, lemma_conn_index, send_result, wants_receiver,
    Admission, AudioRxState, ConnTable, FrameFate, ListenEvent, MissCounter, ProbeStep, Prober,
    ReadStep, Reader, ReaderView, RxView, SendError,
};
use crate::audio::framing::AudioStats;
use crate::audio::AudioSettings;
use crate::client::{ClientManager, ClientView};
use crate::datagram::batch::{
    frame_error, frame_views, lemma_no_frame_error, AudioFrameRef, BATCH_HEADER_SIZE,
};
use crate::datagram::laws::{lemma_numbers, lemma_received, num};
use crate::datagram::{datagram_bytes, lemma_decode_encode, AudioControlCmd, DatagramRef};
use crate::ipc::ClientHandle;
use crate::net::{AddrSet, SocketAddr};
use crate::proto::{event_bytes, ProtoEvent, ProtocolError};
use crate::text::TextMap;
use vstd::prelude::*;

verus! {

/// What the log is told of an event that was not sent.
pub proof fn lemma_failed_sends_are_told(e: &SendError, s: String)
    requires
        call_ensures(SendError::to_string, (e,), s),
    ensures
        *e matches SendError::NotConnected(h) ==> s@ == "client "@ + crate::text::decimal(h as nat)
            + " is not connected"@,
        *e matches SendError::EmulationDisabled(h) ==> s@ == "emulation is disabled on client "@
            + crate::text::decimal(h as nat),
{
}

/// Just the devices that are authorized are let in; the others are remembered
/// in order.
pub proof fn lemma_who_is_let_in(
    a: &mut Admission,
    authorized: &TextMap<String>,
    fingerprint: String,
    ok: bool,
)
    requires
        call_ensures(Admission::verify, (a, authorized, fingerprint), ok),
    ensures
        ok <==> authorized@.contains_key(fingerprint@),
        ok ==> final(a).attempts() == old(a).attempts(),
        !ok ==> final(a).attempts() == old(a).attempts().push(fingerprint@),
{
}

/// Devices that were turned away are reported once each, the first one first.
pub proof fn lemma_who_is_reported(a: &mut Admission, e: Option<ListenEvent>)
    requires
        call_ensures(Admission::rejected, (a,), e),
    ensures
        old(a).attempts().len() == 0 ==> e is None && final(a).attempts() == old(a).attempts(),
        old(a).attempts().len() > 0 ==> {
            &&& e matches Some(ListenEvent::Rejected { fingerprint }) && fingerprint@ == old(
                a,
            ).attempts()[0]
            &&& final(a).attempts() == old(a).attempts().skip(1)
        },
{
}

/// Nobody is remembered at first, and there is no connection.
pub proof fn lemma_listening_begins<C>(a: Admission, t: ConnTable<C>)
    requires
        call_ensures(Admission::new, (), a),
        call_ensures(ConnTable::<C>::new, (), t),
    ensures
        a.attempts().len() == 0,
        t.conns().len() == 0,
{
}

/// Connections are kept in the order they were accepted, and read as they are.
pub proof fn lemma_connections_are_kept<C>(
    t: &mut ConnTable<C>,
    addr: SocketAddr,
    conn: C,
    u: &ConnTable<C>,
    n: usize,
    i: usize,
    got: (SocketAddr, &C),
)
    requires
        call_ensures(ConnTable::<C>::push, (t, addr, conn), ()),
        call_ensures(ConnTable::<C>::len, (u,), n),
        i < u.conns().len(),
        call_ensures(ConnTable::<C>::get, (u, i), got),
    ensures
        final(t).conns() == old(t).conns().push((addr, conn)),
        n == u.conns().len(),
        got.0 == u.conns()[i as int].0,
        *got.1 == u.conns()[i as int].1,
{
}

/// A connection is found by where it comes from: the first one from there, or
/// none where there is none.
pub proof fn lemma_connection_is_found<C>(t: &ConnTable<C>, addr: SocketAddr, r: Option<usize>, j: int)
    requires
        call_ensures(ConnTable::<C>::find, (t, addr), r),
    ensures
        r is None && 0 <= j < t.conns().len() ==> t.conns()[j].0 != addr,
        r matches Some(i) ==> i < t.conns().len() && t.conns()[i as int].0 == addr,
        r matches Some(i) ==> (0 <= j < i ==> t.conns()[j].0 != addr),
{
    lemma_conn_index(t.conns(), addr);
}

/// A connection that ended is taken out: the first one from an address, and no
/// other.
pub proof fn lemma_connection_is_taken_out<C>(t: &mut ConnTable<C>, addr: SocketAddr, i: int)
    requires
        call_ensures(ConnTable::<C>::remove, (t, addr), ()),
    ensures
        0 <= i < old(t).conns().len() && old(t).conns()[i].0 == addr && (forall|j: int|
            0 <= j < i ==> (#[trigger] old(t).conns()[j]).0 != addr) ==> final(t).conns() == old(
            t,
        ).conns().remove(i),
        (forall|j: int| 0 <= j < old(t).conns().len() ==> (#[trigger] old(t).conns()[j]).0 != addr)
            ==> final(t).conns() == old(t).conns(),
{
    let all = old(t).conns();
    lemma_conn_index(all, addr);
    if 0 <= i < all.len() && all[i].0 == addr && (forall|j: int|
        0 <= j < i ==> (#[trigger] all[j]).0 != addr) {
        let k = super::conn_index(all, addr)->0;
        assert(super::conn_index(all, addr) is Some);
        if k < i {
            assert(all[k].0 != addr);
        } else if i < k {
            assert(all[i].0 != addr);
        }
    }
}

/// A reply goes over every connection from an address, in order, and no other.
pub proof fn lemma_reply_goes_everywhere<C>(t: &ConnTable<C>, addr: SocketAddr, r: Vec<usize>, i: int)
    requires
        call_ensures(ConnTable::<C>::find_all, (t, addr), r),
        t.conns().len() <= usize::MAX,
    ensures
        forall|a: int, b: int| 0 <= a < b < r@.len() ==> r@[a] < r@[b],
        0 <= i < t.conns().len() ==> (t.conns()[i].0 == addr <==> r@.contains(i as usize)),
{
    if 0 <= i < t.conns().len() && r@.contains(i as usize) {
        let k = r@.index_of(i as usize);
        assert(t.conns()[r@[k] as int].0 == addr);
    }
}

/// An event for a client goes over the client's connection where it has one
/// and is available; otherwise the reason is told.
pub proof fn lemma_where_events_go<C>(
    clients: &ClientManager,
    conns: &ConnTable<C>,
    h: ClientHandle,
    c: ClientView,
    addr: SocketAddr,
    i: int,
    r: Result<usize, SendError>,
)
    requires
        call_ensures(find_route::<C>, (clients, conns, h), r),
    ensures
        clients@.get(h) is None ==> r == Err::<usize, SendError>(SendError::NotConnected(h)),
        clients@.get(h) == Some(c) && c.state.active_addr is None ==> r == Err::<usize, SendError>(
            SendError::NotConnected(h),
        ),
        clients@.get(h) == Some(c) && c.state.active_addr is Some && !c.state.alive ==> r == Err::<
            usize,
            SendError,
        >(SendError::EmulationDisabled(h)),
        clients@.get(h) == Some(c) && c.state.active_addr == Some(addr) && c.state.alive ==> {
            &&& (forall|j: int|
                0 <= j < conns.conns().len() ==> (#[trigger] conns.conns()[j]).0 != addr) ==> r
                == Err::<usize, SendError>(SendError::NotConnected(h))
            &&& 0 <= i < conns.conns().len() && conns.conns()[i].0 == addr ==> (r matches Ok(k)
                && k < conns.conns().len() && k <= i && conns.conns()[k as int].0 == addr)
        },
{
    lemma_conn_index(conns.conns(), addr);
    if clients@.get(h) == Some(c) && c.state.active_addr == Some(addr) {
        lemma_conn_index(conns.conns(), addr);
    }
}

/// A send that failed is reported as a client that is not connected.
pub proof fn lemma_what_a_send_comes_to(h: ClientHandle, sent: bool, r: Result<(), SendError>)
    requires
        call_ensures(send_result, (h, sent), r),
    ensures
        sent ==> r is Ok,
        !sent ==> r == Err::<(), SendError>(SendError::NotConnected(h)),
{
}

/// Six probes in a row without an answer, five seconds apart, end a connection;
/// an answer starts the count over.
pub proof fn lemma_misses_are_counted(
    c: &mut MissCounter,
    dead: bool,
    d: &mut MissCounter,
    e: &MissCounter,
    n: u32,
)
    requires
        old(c).misses() < u32::MAX,
        call_ensures(MissCounter::miss, (c,), dead),
        call_ensures(MissCounter::reset, (d,), ()),
        call_ensures(MissCounter::count, (e,), n),
    ensures
        final(c).misses() == old(c).misses() + 1,
        dead <==> old(c).misses() >= 5,
        final(d).misses() == 0,
        n == e.misses(),
        super::LIVENESS_INTERVAL_MS == 5_000,
{
}

/// A peer is asked again as long as it answers, or has not missed six probes
/// in a row; then, or where a probe cannot be sent, its connection is closed.
/// An answer counts for one probe only.
pub proof fn lemma_peer_is_probed(
    p: &mut Prober,
    heard: &mut AddrSet,
    s: ProbeStep,
    q: &Prober,
    ok: bool,
    after: ProbeStep,
    n: u32,
)
    requires
        old(p).misses() < u32::MAX,
        call_ensures(Prober::elapsed, (p, heard), s),
        call_ensures(Prober::sent, (q, ok), after),
        call_ensures(Prober::missed, (q,), n),
    ensures
        final(p).addr() == old(p).addr(),
        final(heard)@ == old(heard)@.remove(old(p).addr()),
        old(heard)@.contains(old(p).addr()) ==> s == ProbeStep::Probe && final(p).misses() == 0,
        !old(heard)@.contains(old(p).addr()) ==> final(p).misses() == old(p).misses() + 1,
        !old(heard)@.contains(old(p).addr()) && old(p).misses() < 5 ==> s == ProbeStep::Probe,
        !old(heard)@.contains(old(p).addr()) && old(p).misses() >= 5 ==> s == ProbeStep::Close,
        ok ==> after == ProbeStep::Wait,
        !ok ==> after == ProbeStep::Close,
        n == q.misses(),
{
}

/// A new peer has missed nothing, and what was heard before a probe does not
/// count for it.
pub proof fn lemma_probing_begins(addr: SocketAddr, p: Prober, heard: &mut AddrSet)
    requires
        call_ensures(Prober::new, (addr,), p),
        call_ensures(Prober::begin, (&p, heard), ()),
    ensures
        p.addr() == addr,
        p.misses() == 0,
        final(heard)@ == old(heard)@.remove(addr),
{
}

/// Frames without an announcement are taken as 48 kHz in stereo; and received
/// audio is played where the user wants it.
pub proof fn lemma_format_of_frames(
    announced: Option<(u32, u8)>,
    f: (u32, u8),
    settings: &AudioSettings,
    wanted: bool,
)
    requires
        call_ensures(announced_or_default_format, (announced,), f),
        call_ensures(wants_receiver, (settings,), wanted),
    ensures
        announced is Some ==> Some(f) == announced,
        announced is None ==> f == (48_000u32, 2u8),
        wanted <==> settings.receive,
{
}

/// The status of a stream that begins or ends.
pub open spec fn status(addr: SocketAddr, active: bool) -> ListenEvent {
    ListenEvent::AudioStream { addr, active, latency_ms: 0, packets_lost: 0, level: 0 }
}

/// An announcement starts playback in its format unless the stream plays
/// already, and is remembered; an end drops what plays, and is reported.
pub proof fn lemma_stream_commands(
    rx: &mut AudioRxState,
    cmd: AudioControlCmd,
    addr: SocketAddr,
    r: (Option<(u32, u8)>, Option<ListenEvent>),
)
    requires
        call_ensures(AudioRxState::on_control, (rx, cmd, addr), r),
    ensures
        match cmd {
            AudioControlCmd::Start { sample_rate, channels } => {
                &&& r.0 == if old(rx)@.receiver {
                    None
                } else {
                    Some((sample_rate, channels))
                }
                &&& r.1 is None
                &&& final(rx)@ == (RxView {
                    last_start_format: Some((sample_rate, channels)),
                    lazy_failed: false,
                    ..old(rx)@
                })
            },
            AudioControlCmd::Stop => {
                &&& r.0 is None
                &&& r.1 == Some(status(addr, false))
                &&& final(rx)@ == (RxView {
                    receiver: false,
                    last_start_format: None,
                    lazy_failed: false,
                    ..old(rx)@
                })
            },
        },
{
}

/// Playback that was started is reported; where it could not be started for a
/// frame, that is not tried for every frame.
pub proof fn lemma_playback_is_started(
    a: &mut AudioRxState,
    b: &mut AudioRxState,
    ok: bool,
    addr: SocketAddr,
    e: Option<ListenEvent>,
    f: Option<ListenEvent>,
)
    requires
        call_ensures(AudioRxState::control_started, (a, ok, addr), e),
        call_ensures(AudioRxState::lazy_started, (b, ok, addr), f),
    ensures
        e == if ok {
            Some(status(addr, true))
        } else {
            None
        },
        f == e,
        final(a)@ == (RxView { receiver: ok, ..old(a)@ }),
        final(b)@ == (RxView {
            receiver: ok,
            lazy_failed: old(b)@.lazy_failed || !ok,
            ..old(b)@
        }),
{
}

/// A frame starts playback where nothing plays and it has not failed: in the
/// format that was announced, or the usual one.
pub proof fn lemma_frame_starts_playback(rx: &AudioRxState, f: Option<(u32, u8)>, plays: bool)
    requires
        call_ensures(AudioRxState::ensure_receiver, (rx,), f),
        call_ensures(AudioRxState::has_receiver, (rx,), plays),
    ensures
        plays == rx@.receiver,
        rx@.receiver || rx@.lazy_failed ==> f is None,
        !rx@.receiver && !rx@.lazy_failed ==> f is Some,
        !rx@.receiver && !rx@.lazy_failed && rx@.last_start_format is Some ==> f
            == rx@.last_start_format,
        !rx@.receiver && !rx@.lazy_failed && rx@.last_start_format is None ==> f == Some(
            (48_000u32, 2u8),
        ),
{
}

/// A frame is played where something plays the stream, and dropped otherwise;
/// each is counted. The first that is dropped is logged, and every thousandth.
pub proof fn lemma_what_becomes_of_frames(rx: &mut AudioRxState, fate: FrameFate)
    requires
        old(rx)@.received < u64::MAX,
        old(rx)@.dropped < u64::MAX,
        call_ensures(AudioRxState::on_frame, (rx,), fate),
    ensures
        old(rx)@.receiver ==> {
            &&& fate == (FrameFate::Play { first: old(rx)@.received == 0 })
            &&& final(rx)@ == (RxView { received: old(rx)@.received + 1, ..old(rx)@ })
        },
        !old(rx)@.receiver ==> {
            let n = old(rx)@.dropped + 1;
            &&& fate == (FrameFate::Discard {
                log: if n == 1 || n % 1000 == 0 {
                    Some(n as u64)
                } else {
                    None
                },
            })
            &&& final(rx)@ == (RxView { dropped: n, ..old(rx)@ })
        },
{
}

/// Playback that failed is dropped and reported as ended, so that it can be
/// started anew; playback that goes on is left alone.
pub proof fn lemma_failed_playback_is_dropped(
    rx: &mut AudioRxState,
    healthy: bool,
    addr: SocketAddr,
    e: Option<ListenEvent>,
)
    requires
        call_ensures(AudioRxState::drop_if_failed, (rx, healthy, addr), e),
    ensures
        old(rx)@.receiver && !healthy ==> e == Some(status(addr, false)) && final(rx)@ == (RxView {
            receiver: false,
            lazy_failed: false,
            ..old(rx)@
        }),
        !old(rx)@.receiver || healthy ==> e is None && final(rx)@ == old(rx)@,
{
}

/// What was counted is read.
pub proof fn lemma_counts_are_read(
    rx: &AudioRxState,
    received: u64,
    dropped: u64,
    r: &Reader,
    played: u64,
    lost: u64,
)
    requires
        call_ensures(AudioRxState::received, (rx,), received),
        call_ensures(AudioRxState::dropped, (rx,), dropped),
        call_ensures(Reader::received, (r,), played),
        call_ensures(Reader::dropped, (r,), lost),
    ensures
        received == rx@.received,
        dropped == rx@.dropped,
        played == r@.rx.received,
        lost == r@.rx.dropped,
{
}

/// A connection begins with nothing received.
pub proof fn lemma_reading_begins(addr: SocketAddr, now_ms: u64, r: Reader)
    requires
        call_ensures(Reader::new, (addr, now_ms), r),
    ensures
        r@.addr == addr,
        r@.last_stats_ms == now_ms,
        !r@.rx.receiver,
        r@.rx.last_start_format is None,
        !r@.rx.lazy_failed,
        r@.rx.received == 0,
        r@.rx.dropped == 0,
{
}

/// An event that a peer sends is passed on as it is, with where it came from;
/// it proves the peer alive, and changes nothing else.
pub proof fn lemma_peer_events_are_passed_on(
    r: &mut Reader,
    e: ProtoEvent,
    buf: &[u8],
    now_ms: u64,
    heard: &mut AddrSet,
    step: ReadStep,
)
    requires
        event_bytes(e).is_prefix_of(buf@),
        call_ensures(Reader::on_datagram, (r, buf, now_ms, heard), step),
    ensures
        step == ReadStep::Deliver(ListenEvent::Msg { event: e, addr: old(r)@.addr }),
        final(heard)@ == old(heard)@.insert(old(r)@.addr),
        final(r)@ == old(r)@,
{
    broadcast use {crate::wire::lemma_be32_len, crate::wire::lemma_be64_len};

    assert(event_bytes(e).len() <= 21);
    lemma_decode_encode(DatagramRef::Event(e), 21, buf@);
}

/// An audio frame that a peer sends is played, with its number and where its
/// payload stands, once playback was started where it has to be.
pub proof fn lemma_peer_audio_is_played(
    r: &mut Reader,
    seq: u32,
    ts_ms: u32,
    payload: &[u8],
    buf: &[u8],
    now_ms: u64,
    heard: &mut AddrSet,
    step: ReadStep,
)
    requires
        0 < payload@.len() <= 65535,
        datagram_bytes(DatagramRef::Audio { seq, ts_ms, payload }).is_prefix_of(buf@),
        buf@.len() <= usize::MAX,
        call_ensures(Reader::on_datagram, (r, buf, now_ms, heard), step),
    ensures
        step matches ReadStep::Audio { start, seq: s, payload: p } && {
            &&& s == seq
            &&& p.start <= p.end <= buf@.len()
            &&& buf@.subrange(p.start as int, p.end as int) == payload@
            &&& start is None <==> old(r)@.rx.receiver || old(r)@.rx.lazy_failed
            &&& start is Some ==> start == match old(r)@.rx.last_start_format {
                Some(f) => Some(f),
                None => Some((48_000u32, 2u8)),
            }
        },
        final(heard)@ == old(heard)@.insert(old(r)@.addr),
        final(r)@ == old(r)@,
{
    broadcast use crate::wire::lemma_be32_len;

    let dg = DatagramRef::Audio { seq, ts_ms, payload };
    lemma_decode_encode(dg, buf@.len() as usize, buf@);
}

/// A stream command that a peer sends starts playback in its format, unless
/// the stream plays already, and puts off the next report; an end is reported.
pub proof fn lemma_peer_commands_are_followed(
    r: &mut Reader,
    buf: &[u8],
    now_ms: u64,
    heard: &mut AddrSet,
    step: ReadStep,
)
    requires
        buf@.len() >= 7,
        buf@[0] == 13,
        buf@[1] <= 1,
        call_ensures(Reader::on_datagram, (r, buf, now_ms, heard), step),
    ensures
        final(heard)@ == old(heard)@.insert(old(r)@.addr),
        ({
            let format = (num(buf@, 2, 4) as u32, buf@[6]);
            &&& buf@[1] == 1 ==> {
                &&& step == (ReadStep::Control {
                    start: if old(r)@.rx.receiver {
                        None
                    } else {
                        Some(format)
                    },
                    event: None,
                })
                &&& final(r)@ == (ReaderView {
                    rx: RxView {
                        last_start_format: Some(format),
                        lazy_failed: false,
                        ..old(r)@.rx
                    },
                    last_stats_ms: now_ms,
                    ..old(r)@
                })
            }
            &&& buf@[1] == 0 ==> {
                &&& step == (ReadStep::Control {
                    start: None,
                    event: Some(status(old(r)@.addr, false)),
                })
                &&& final(r)@ == (ReaderView {
                    rx: RxView {
                        receiver: false,
                        last_start_format: None,
                        lazy_failed: false,
                        ..old(r)@.rx
                    },
                    ..old(r)@
                })
            }
        }),
{
    lemma_numbers(buf@, 2);
}

/// What cannot be read is skipped with its reason; it proves the peer alive all
/// the same, and changes nothing else.
pub proof fn lemma_unreadable_datagrams_are_skipped(
    r: &mut Reader,
    buf: &[u8],
    now_ms: u64,
    heard: &mut AddrSet,
    step: ReadStep,
)
    requires
        buf@.len() == 0 || buf@[0] > 14,
        call_ensures(Reader::on_datagram, (r, buf, now_ms, heard), step),
    ensures
        buf@.len() == 0 ==> step == ReadStep::Skip(ProtocolError::Truncated(0)),
        buf@.len() > 0 ==> step == ReadStep::Skip(ProtocolError::InvalidEventId(buf@[0])),
        final(heard)@ == old(heard)@.insert(old(r)@.addr),
        final(r)@ == old(r)@,
{
}

/// A reader notes and reports what became of playback just as its stream does.
pub proof fn lemma_reader_notes_playback(
    a: &mut Reader,
    b: &mut Reader,
    ok: bool,
    e: Option<ListenEvent>,
    f: Option<ListenEvent>,
)
    requires
        call_ensures(Reader::control_started, (a, ok), e),
        call_ensures(Reader::lazy_started, (b, ok), f),
    ensures
        e == if ok {
            Some(status(old(a)@.addr, true))
        } else {
            None
        },
        f == if ok {
            Some(status(old(b)@.addr, true))
        } else {
            None
        },
        final(a)@ == (ReaderView {
            rx: RxView { receiver: ok, ..old(a)@.rx },
            ..old(a)@
        }),
        final(b)@ == (ReaderView {
            rx: RxView {
                receiver: ok,
                lazy_failed: old(b)@.rx.lazy_failed || !ok,
                ..old(b)@.rx
            },
            ..old(b)@
        }),
{
}

/// A reader's frames are counted as its stream's are.
pub proof fn lemma_reader_counts_frames(r: &mut Reader, fate: FrameFate)
    requires
        old(r)@.rx.received < u64::MAX,
        old(r)@.rx.dropped < u64::MAX,
        call_ensures(Reader::on_frame, (r,), fate),
    ensures
        final(r)@.addr == old(r)@.addr,
        final(r)@.last_stats_ms == old(r)@.last_stats_ms,
        old(r)@.rx.receiver ==> {
            &&& fate == (FrameFate::Play { first: old(r)@.rx.received == 0 })
            &&& final(r)@.rx == (RxView { received: old(r)@.rx.received + 1, ..old(r)@.rx })
        },
        !old(r)@.rx.receiver ==> {
            let n = old(r)@.rx.dropped + 1;
            &&& fate == (FrameFate::Discard {
                log: if n == 1 || n % 1000 == 0 {
                    Some(n as u64)
                } else {
                    None
                },
            })
            &&& final(r)@.rx == (RxView { dropped: n, ..old(r)@.rx })
        },
{
}

/// The status of a stream is due a second after the last report. It is what
/// plays the stream that says how it stands; where that failed, the stream is
/// reported as ended; where nothing plays, nothing is reported.
pub proof fn lemma_stream_is_reported(
    q: &Reader,
    due: bool,
    r: &mut Reader,
    healthy: bool,
    stats: AudioStats,
    now_ms: u64,
    e: Option<ListenEvent>,
)
    requires
        call_ensures(Reader::stats_due, (q, now_ms), due),
        call_ensures(Reader::report, (r, healthy, stats, now_ms), e),
    ensures
        due <==> q@.last_stats_ms + 1_000 <= now_ms,
        final(r)@.last_stats_ms == now_ms,
        final(r)@.addr == old(r)@.addr,
        !old(r)@.rx.receiver ==> e is None && final(r)@.rx == old(r)@.rx,
        old(r)@.rx.receiver && healthy ==> final(r)@.rx == old(r)@.rx && e == Some(
            ListenEvent::AudioStream {
                addr: old(r)@.addr,
                active: true,
                latency_ms: stats.latency_ms,
                packets_lost: stats.packets_lost,
                level: stats.level,
            },
        ),
        old(r)@.rx.receiver && !healthy ==> e == Some(status(old(r)@.addr, false)) && final(r)@.rx
            == (RxView { receiver: false, lazy_failed: false, ..old(r)@.rx }),
{
}

/// When a connection ends, the end of its stream is reported where one played,
/// then its own; and it is not heard from any more.
pub proof fn lemma_connection_ends(r: &Reader, heard: &mut AddrSet, events: Vec<ListenEvent>)
    requires
        call_ensures(Reader::closed, (r, heard), events),
    ensures
        final(heard)@ == old(heard)@.remove(r@.addr),
        r@.rx.receiver ==> events@ == seq![
            status(r@.addr, false),
            ListenEvent::Disconnected { addr: r@.addr },
        ],
        !r@.rx.receiver ==> events@ == seq![ListenEvent::Disconnected { addr: r@.addr }],
{
}

/// Audio frames that a peer sends together are played in order, each with its
/// number and where its payload stands.
pub proof fn lemma_peer_batches_are_played(
    r: &mut Reader,
    sent: &[AudioFrameRef<'_>],
    buf: &[u8],
    now_ms: u64,
    heard: &mut AddrSet,
    step: ReadStep,
    i: int,
)
    requires
        0 < sent@.len() <= 255,
        forall|i: int| 0 <= i < sent@.len() ==> 0 < (#[trigger] sent@[i]).payload@.len() <= 65535,
        datagram_bytes(DatagramRef::AudioBatch(sent)).is_prefix_of(buf@),
        buf@.len() <= usize::MAX,
        call_ensures(Reader::on_datagram, (r, buf, now_ms, heard), step),
    ensures
        step matches ReadStep::Batch { start, frames } && {
            &&& frames@.len() == sent@.len()
            &&& 0 <= i < sent@.len() ==> {
                let p = frames@[i].payload_range;
                &&& frames@[i].seq == sent@[i].seq
                &&& frames@[i].ts_ms == sent@[i].ts_ms
                &&& p.start <= p.end <= buf@.len()
                &&& buf@.subrange(p.start as int, p.end as int) == sent@[i].payload@
            }
            &&& start is None <==> old(r)@.rx.receiver || old(r)@.rx.lazy_failed
            &&& start is Some ==> start == match old(r)@.rx.last_start_format {
                Some(f) => Some(f),
                None => Some((48_000u32, 2u8)),
            }
        },
        final(heard)@ == old(heard)@.insert(old(r)@.addr),
        final(r)@ == old(r)@,
{
    let dg = DatagramRef::AudioBatch(sent);
    let v = frame_views(sent@);
    assert forall|k: int| 0 <= k < v.len() implies frame_error(#[trigger] v[k]) is None by {
        assert(0 < sent@[k].payload@.len() <= 65535);
    }
    lemma_no_frame_error(v);
    lemma_decode_encode(dg, buf@.len() as usize, buf@);
    if 0 <= i < sent@.len() {
        lemma_received(v, BATCH_HEADER_SIZE as int, i);
        assert(v[i] == sent@[i]@);
    }
}

/// Nothing was missed and nothing received at first.
pub proof fn lemma_counts_at_first(c: MissCounter, s: AudioRxState)
    requires
        call_ensures(<MissCounter as Default>::default, (), c),
        call_ensures(<AudioRxState as Default>::default, (), s),
    ensures
        c.misses() == 0,
        s@ == (RxView {
            receiver: false,
            last_start_format: None,
            lazy_failed: false,
            received: 0,
            dropped: 0,
        }),
{
}

/// Whatever cannot be read is skipped with its reason, and changes nothing but
/// that the peer was heard.
pub proof fn lemma_unreadable_is_skipped(
    r: &mut Reader,
    buf: &[u8],
    now_ms: u64,
    heard: &mut AddrSet,
    step: ReadStep,
    e: ProtocolError,
)
    requires
        call_ensures(
            crate::datagram::decode,
            (buf,),
            Err::<crate::datagram::Datagram, ProtocolError>(e),
        ),
        call_ensures(Reader::on_datagram, (r, buf, now_ms, heard), step),
    ensures
        step == ReadStep::Skip(e),
        final(heard)@ == old(heard)@.insert(old(r)@.addr),
        final(r)@ == old(r)@,
{
}

} // verus!
