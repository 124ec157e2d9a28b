//! What the window shows of the service's events.
//!
//! Each law speaks of a call: of what the window shows afterwards, and what
//! is to be done. What is logged has a law of its own.

use super::laws::{
    added_row, last_entry, lemma_events_change_named_rows, lemma_listed_have_rows,
    lemma_row_of_handle, lemma_stream_row, new_handles, one_row_per_client, row_handles,
    rows_follow, with_entry,
};
use super::{incoming_row, AppActionView, AppModel, WindowView};
use crate::gui::laws::entry_of;
use crate::gui::logs::{describe, LogCategory};
use crate::gui::rows::{written_same, AudioStreamRowModel, ClientRowView, IncomingRowView};
use crate::ipc::{
    ClientConfig, ClientEntryView, ClientHandle, ClientState, FrontendEvent, Position, Status,
};
use crate::net::{addr_text, SocketAddr};
use crate::text::{decimal, opt_view, TextMap};
use vstd::prelude::*;

verus! {

/// Clients' rows that are brought up to date change nothing else.
proof fn lemma_upserts_frame(v: WindowView, clients: Seq<ClientEntryView>)
    ensures
        v.upsert_clients(clients) == (WindowView {
            clients: v.upsert_clients(clients).clients,
            ..v
        }),
    decreases clients.len(),
{
    reveal(WindowView::upsert_client);
    reveal(WindowView::update_client);
    if clients.len() > 0 {
        lemma_upserts_frame(v, clients.drop_last());
    }
}

/// No event but what is said of it changes the log.
proof fn lemma_event_leaves_the_log(v: WindowView, e: FrontendEvent, v6: Seq<char>)
    ensures
        v.event(e, v6).log == v.log,
{
    reveal(WindowView::upsert_client);
    reveal(WindowView::update_client);
    reveal(WindowView::reset_port_entry);
    reveal(WindowView::open_authorization);
    reveal(WindowView::close_authorization);
    reveal(WindowView::device_entered);
    reveal(WindowView::device_gone);
    reveal(WindowView::client_audio);
    reveal(WindowView::audio_stream);
    if let FrontendEvent::Enumerate(clients) = e {
        lemma_upserts_frame(v, crate::ipc::entry_views(clients@));
    }
}

/// An event is logged with what is said of it, where anything is.
pub proof fn lemma_event_is_logged(
    m: &mut AppModel,
    e: FrontendEvent,
    v6: &str,
    ts: &str,
    d: Option<(LogCategory, String)>,
)
    requires
        old(m)@.log.entries.len() <= 500,
        call_ensures(AppModel::frontend, (m, e, v6, ts), ()),
        call_ensures(describe, (&e, v6), d),
    ensures
        final(m)@.log.filter == old(m)@.log.filter,
        d is None ==> final(m)@.log == old(m)@.log,
        d matches Some((c, text)) ==> {
            let a = old(m)@.log.entries;
            let b = final(m)@.log.entries;
            let one = entry_of(old(m)@.log, c, text@, ts@);
            &&& a.len() < 500 ==> b == a.push(one)
            &&& a.len() == 500 ==> b == a.skip(1).push(one)
        },
{
    let v = old(m)@;
    let logged = match crate::gui::logs::description(e@, v6@) {
        Some((c, text)) => WindowView { log: v.log.append(ts@, c, text), ..v },
        None => v,
    };
    lemma_event_leaves_the_log(logged, e, v6@);
    if let Some((c, text)) = d {
        let a = v.log.entries;
        let one = entry_of(v.log, c, text@, ts@);
        if a.len() == 500 {
            assert(a.push(one).skip(1) =~= a.skip(1).push(one));
        }
    }
}

/// The row of a client with a configuration and a state, that keeps what it
/// says of audio.
pub open spec fn row_with(r: ClientRowView, c: ClientConfig, s: ClientState) -> ClientRowView {
    ClientRowView {
        hostname: opt_view(c.hostname),
        port: c.port,
        position: c.pos,
        active: s.active,
        active_addr: s.active_addr,
        ..r
    }
}

/// `i` is the place of a client's row.
pub open spec fn has_row(rows: Seq<ClientRowView>, h: ClientHandle, i: int) -> bool {
    &&& 0 <= i < rows.len()
    &&& rows[i].handle == h
    &&& forall|j: int| 0 <= j < i ==> (#[trigger] rows[j]).handle != h
}

/// A client's row is found at its place.
proof fn lemma_has_row(rows: Seq<ClientRowView>, h: ClientHandle, i: int)
    requires
        has_row(rows, h, i),
    ensures
        super::row_of_handle(rows, h) == Some(i),
{
    lemma_row_of_handle(rows, h);
    let k = super::row_of_handle(rows, h)->0;
    assert(super::row_of_handle(rows, h) is Some);
    if k < i {
        assert(rows[k].handle != h);
    } else if i < k {
        assert(rows[i].handle != h);
    }
}

/// A client that is created gets a row, or has its own brought up to date.
pub proof fn lemma_created_client_has_a_row(
    m: &mut AppModel,
    h: ClientHandle,
    c: ClientConfig,
    s: ClientState,
    v6: &str,
    ts: &str,
    i: int,
)
    requires
        call_ensures(AppModel::frontend, (m, FrontendEvent::Created(h, c, s), v6, ts), ()),
    ensures
        ({
            let a = old(m)@;
            let b = final(m)@;
            let new = ClientRowView {
                handle: h,
                hostname: opt_view(c.hostname),
                port: c.port,
                position: c.pos,
                active: s.active,
                active_addr: s.active_addr,
                audio_active: false,
                audio_latency_ms: None,
            };
            &&& b == (WindowView { clients: b.clients, log: b.log, ..a })
            &&& (forall|j: int| 0 <= j < a.clients.len() ==> (#[trigger] a.clients[j]).handle != h)
                ==> b.clients == a.clients.push(new)
            &&& has_row(a.clients, h, i) ==> b.clients == a.clients.update(
                i,
                row_with(a.clients[i], c, s),
            )
        }),
{
    reveal(WindowView::upsert_client);
    reveal(WindowView::update_client);
    lemma_row_of_handle(old(m)@.clients, h);
    if has_row(old(m)@.clients, h, i) {
        lemma_has_row(old(m)@.clients, h, i);
    }
}

/// A client that changed has its row brought up to date; where it has none,
/// nothing happens.
pub proof fn lemma_changed_client_is_shown(
    m: &mut AppModel,
    h: ClientHandle,
    c: ClientConfig,
    s: ClientState,
    v6: &str,
    ts: &str,
    i: int,
)
    requires
        call_ensures(AppModel::frontend, (m, FrontendEvent::State(h, c, s), v6, ts), ()),
    ensures
        ({
            let a = old(m)@;
            let b = final(m)@;
            &&& b == (WindowView { clients: b.clients, log: b.log, ..a })
            &&& (forall|j: int| 0 <= j < a.clients.len() ==> (#[trigger] a.clients[j]).handle != h)
                ==> b.clients == a.clients
            &&& has_row(a.clients, h, i) ==> b.clients == a.clients.update(
                i,
                row_with(a.clients[i], c, s),
            )
        }),
{
    reveal(WindowView::update_client);
    lemma_row_of_handle(old(m)@.clients, h);
    if has_row(old(m)@.clients, h, i) {
        lemma_has_row(old(m)@.clients, h, i);
    }
}

/// A client that is gone has its row taken away, and no other.
pub proof fn lemma_deleted_client_is_taken_away(
    m: &mut AppModel,
    h: ClientHandle,
    v6: &str,
    ts: &str,
    i: int,
)
    requires
        call_ensures(AppModel::frontend, (m, FrontendEvent::Deleted(h), v6, ts), ()),
    ensures
        ({
            let a = old(m)@;
            let b = final(m)@;
            &&& b == (WindowView { clients: b.clients, log: b.log, ..a })
            &&& (forall|j: int| 0 <= j < a.clients.len() ==> (#[trigger] a.clients[j]).handle != h)
                ==> b.clients == a.clients
            &&& has_row(a.clients, h, i) ==> b.clients == a.clients.remove(i)
        }),
{
    lemma_row_of_handle(old(m)@.clients, h);
    if has_row(old(m)@.clients, h, i) {
        lemma_has_row(old(m)@.clients, h, i);
    }
}

/// The port that is in use shows in its entry; where another could not be
/// had, the reason is shown for a while.
pub proof fn lemma_port_is_shown(
    m: &mut AppModel,
    port: u16,
    msg: Option<String>,
    v6: &str,
    ts: &str,
)
    requires
        call_ensures(AppModel::frontend, (m, FrontendEvent::PortChanged(port, msg), v6, ts), ()),
    ensures
        ({
            let a = old(m)@;
            let b = final(m)@;
            let text = if port == 4242 {
                seq![]
            } else {
                decimal(port as nat)
            };
            let toast = match msg {
                Some(why) => seq![AppActionView::Toast(why@)],
                None => seq![],
            };
            b == (WindowView {
                port,
                port_editing: false,
                log: b.log,
                actions: a.actions + seq![AppActionView::SetPortEntry(text)] + toast,
                ..a
            })
        }),
{
    reveal(WindowView::reset_port_entry);
    let a = old(m)@;
    let text = if port == 4242 {
        seq![]
    } else {
        decimal(port as nat)
    };
    let toast = match msg {
        Some(why) => seq![AppActionView::Toast(why@)],
        None => seq![],
    };
    assert(final(m)@.actions =~= a.actions + seq![AppActionView::SetPortEntry(text)] + toast);
}

/// Errors and devices that connect are shown for a while.
pub proof fn lemma_messages_are_shown(m: &mut AppModel, e: FrontendEvent, v6: &str, ts: &str)
    requires
        e is Error || e is DeviceConnected || e is AudioError,
        call_ensures(AppModel::frontend, (m, e, v6, ts), ()),
    ensures
        final(m)@ == (WindowView {
            log: final(m)@.log,
            actions: old(m)@.actions + seq![
                AppActionView::Toast(
                    match e {
                        FrontendEvent::Error(text) => text@,
                        FrontendEvent::DeviceConnected { addr, .. } => "device connected: "@
                            + addr_text(addr, v6@),
                        FrontendEvent::AudioError { addr: Some(a), message } => "audio error ("@
                            + addr_text(a, v6@) + "): "@ + message@,
                        FrontendEvent::AudioError { addr: None, message } => "audio error: "@
                            + message@,
                        _ => seq![],
                    },
                ),
            ],
            ..old(m)@
        }),
{
    assert(final(m)@.actions =~= old(m)@.actions + seq![final(m)@.actions.last()]);
}

/// How capturing and emulating stand, this machine's fingerprint and the audio
/// settings show as they are told.
pub proof fn lemma_settings_are_shown(m: &mut AppModel, e: FrontendEvent, v6: &str, ts: &str)
    requires
        call_ensures(AppModel::frontend, (m, e, v6, ts), ()),
    ensures
        ({
            let a = old(m)@;
            let b = final(m)@;
            &&& e matches FrontendEvent::CaptureStatus(s) ==> b == (WindowView {
                capture_active: s == Status::Enabled,
                log: b.log,
                ..a
            })
            &&& e matches FrontendEvent::EmulationStatus(s) ==> b == (WindowView {
                emulation_active: s == Status::Enabled,
                log: b.log,
                ..a
            })
            &&& e matches FrontendEvent::PublicKeyFingerprint(f) ==> b == (WindowView {
                pk_fingerprint: f@,
                log: b.log,
                ..a
            })
            &&& e matches FrontendEvent::AudioStatus {
                send,
                receive,
                bitrate,
                buffer_ms,
                loopback_supported,
            } ==> b == (WindowView {
                audio_send: send,
                audio_receive: receive,
                audio_bitrate: bitrate,
                audio_buffer_ms: buffer_ms,
                audio_loopback_supported: loopback_supported,
                log: b.log,
                ..a
            })
            &&& e matches FrontendEvent::AudioDevices { capture, playback } ==> b == (WindowView {
                capture_devices: crate::ipc::device_views(capture@),
                playback_devices: crate::ipc::device_views(playback@),
                log: b.log,
                ..a
            })
            &&& e is OperationMode || e is ConnectionTested || e is ServerEndpoint
                || e is NoSuchClient ==> b == (WindowView { log: b.log, ..a })
        }),
{
}

/// The authorized devices are listed, each with its description, as many as
/// there are.
pub proof fn lemma_authorized_devices_are_listed(
    m: &mut AppModel,
    keys: TextMap<String>,
    v6: &str,
    ts: &str,
    i: int,
    k: Seq<char>,
)
    requires
        call_ensures(AppModel::frontend, (m, FrontendEvent::AuthorizedUpdated(keys), v6, ts), ()),
    ensures
        ({
            let b = final(m)@;
            let all = keys.entries_view();
            &&& b == (WindowView { authorized: b.authorized, log: b.log, ..old(m)@ })
            &&& b.authorized.len() == all.len()
            &&& 0 <= i < all.len() ==> b.authorized[i] == (all[i].1@, all[i].0@)
            &&& keys@.contains_key(k) ==> exists|j: int|
                0 <= j < b.authorized.len() && (#[trigger] b.authorized[j]).1 == k
        }),
{
    let b = final(m)@;
    let all = keys.entries_view();
    if keys@.contains_key(k) {
        keys.lemma_key_has_entry(k);
        let j = choose|j: int| 0 <= j < all.len() && (#[trigger] all[j]).0@ == k;
        assert(b.authorized[j].1 == k);
    }
}

/// A device that was turned away is asked about in a dialog; one that is open
/// gives way to it.
pub proof fn lemma_turned_away_device_is_asked_about(
    m: &mut AppModel,
    fingerprint: String,
    v6: &str,
    ts: &str,
)
    requires
        call_ensures(
            AppModel::frontend,
            (m, FrontendEvent::ConnectionAttempt { fingerprint }, v6, ts),
            (),
        ),
    ensures
        ({
            let a = old(m)@;
            let b = final(m)@;
            let first = if a.authorization_open {
                seq![AppActionView::CloseAuthorization]
            } else {
                seq![]
            };
            b == (WindowView {
                authorization_open: true,
                log: b.log,
                actions: a.actions + first + seq![AppActionView::OpenAuthorization(fingerprint@)],
                ..a
            })
        }),
{
    reveal(WindowView::open_authorization);
    reveal(WindowView::close_authorization);
    let a = old(m)@;
    let first = if a.authorization_open {
        seq![AppActionView::CloseAuthorization]
    } else {
        seq![]
    };
    assert(final(m)@.actions =~= a.actions + first + seq![
        AppActionView::OpenAuthorization(fingerprint@),
    ]);
}

/// A device that entered gets a row of its own, by which it is found again.
pub proof fn lemma_entered_device_has_a_row(
    m: &mut AppModel,
    fingerprint: String,
    addr: SocketAddr,
    pos: Position,
    v6: &str,
    ts: &str,
)
    requires
        old(m)@.next_row < u64::MAX,
        call_ensures(
            AppModel::frontend,
            (m, FrontendEvent::DeviceEntered { fingerprint, addr, pos }, v6, ts),
            (),
        ),
    ensures
        ({
            let a = old(m)@;
            let b = final(m)@;
            b == (WindowView {
                incoming: a.incoming.push(
                    IncomingRowView {
                        id: a.next_row,
                        addr,
                        position: Some(pos),
                        fingerprint: fingerprint@,
                    },
                ),
                incoming_by_addr: a.incoming_by_addr.insert(addr, a.next_row),
                next_row: (a.next_row + 1) as u64,
                log: b.log,
                ..a
            })
        }),
{
    reveal(WindowView::device_entered);
}

/// A device's row stands where it is found, and only there.
proof fn lemma_incoming_row(rows: Seq<IncomingRowView>, id: u64)
    ensures
        match incoming_row(rows, id) {
            Some(i) => 0 <= i < rows.len() && rows[i].id == id && forall|j: int|
                0 <= j < i ==> (#[trigger] rows[j]).id != id,
            None => forall|j: int| 0 <= j < rows.len() ==> (#[trigger] rows[j]).id != id,
        },
    decreases rows.len(),
{
    if rows.len() > 0 {
        let init = rows.drop_last();
        lemma_incoming_row(init, id);
        assert(forall|j: int| 0 <= j < init.len() ==> init[j] == rows[j]);
    }
}

/// A device that is gone has its row taken away, and no other; where it has
/// none, nothing happens.
pub proof fn lemma_gone_device_has_no_row(
    m: &mut AppModel,
    addr: SocketAddr,
    v6: &str,
    ts: &str,
    i: int,
)
    requires
        call_ensures(
            AppModel::frontend,
            (m, FrontendEvent::IncomingDisconnected(addr), v6, ts),
            (),
        ),
    ensures
        ({
            let a = old(m)@;
            let b = final(m)@;
            &&& !a.incoming_by_addr.contains_key(addr) ==> b == (WindowView { log: b.log, ..a })
            &&& a.incoming_by_addr.contains_key(addr) && 0 <= i < a.incoming.len()
                && a.incoming[i].id == a.incoming_by_addr[addr] && (forall|j: int|
                0 <= j < i ==> (#[trigger] a.incoming[j]).id != a.incoming_by_addr[addr]) ==> b == (
            WindowView {
                incoming: a.incoming.remove(i),
                incoming_by_addr: a.incoming_by_addr.remove(addr),
                log: b.log,
                ..a
            })
        }),
{
    reveal(WindowView::device_gone);
    let a = old(m)@;
    if a.incoming_by_addr.contains_key(addr) {
        let id = a.incoming_by_addr[addr];
        lemma_incoming_row(a.incoming, id);
        if 0 <= i < a.incoming.len() && a.incoming[i].id == id && (forall|j: int|
            0 <= j < i ==> (#[trigger] a.incoming[j]).id != id) {
            let k = incoming_row(a.incoming, id)->0;
            assert(incoming_row(a.incoming, id) is Some);
            if k < i {
                assert(a.incoming[k].id != id);
            } else if i < k {
                assert(a.incoming[i].id != id);
            }
        }
    }
}

/// The row of a client that is connected from an address is found where it
/// first stands.
proof fn lemma_row_of_addr_is_first(rows: Seq<ClientRowView>, addr: SocketAddr)
    ensures
        match super::row_of_addr(rows, addr) {
            Some(i) => 0 <= i < rows.len() && connected_from(rows[i], addr) && forall|j: int|
                0 <= j < i ==> !connected_from(#[trigger] rows[j], addr),
            None => forall|j: int| 0 <= j < rows.len() ==> !connected_from(#[trigger] rows[j], addr),
        },
    decreases rows.len(),
{
    if rows.len() > 0 {
        let init = rows.drop_last();
        lemma_row_of_addr_is_first(init, addr);
        assert(forall|j: int| 0 <= j < init.len() ==> init[j] == rows[j]);
    }
}

/// A client is connected from an address.
pub open spec fn connected_from(r: ClientRowView, addr: SocketAddr) -> bool {
    r.active_addr matches Some(a) && written_same(a, addr)
}

/// The client that a stream comes from shows whether its audio plays and how
/// far it lags; no other row does.
pub proof fn lemma_stream_shows_at_its_client(
    m: &mut AppModel,
    addr: SocketAddr,
    active: bool,
    latency_ms: u32,
    packets_lost: u64,
    level: u32,
    v6: &str,
    ts: &str,
    i: int,
)
    requires
        call_ensures(
            AppModel::frontend,
            (
                m,
                FrontendEvent::AudioStream { addr, active, latency_ms, packets_lost, level },
                v6,
                ts,
            ),
            (),
        ),
    ensures
        ({
            let a = old(m)@;
            let b = final(m)@;
            &&& (forall|j: int|
                0 <= j < a.clients.len() ==> !connected_from(#[trigger] a.clients[j], addr))
                ==> b.clients == a.clients
            &&& 0 <= i < a.clients.len() && connected_from(a.clients[i], addr) && (forall|j: int|
                0 <= j < i ==> !connected_from(#[trigger] a.clients[j], addr)) ==> b.clients
                == a.clients.update(
                i,
                ClientRowView {
                    audio_active: active,
                    audio_latency_ms: if active {
                        Some(latency_ms)
                    } else {
                        None
                    },
                    ..a.clients[i]
                },
            )
        }),
{
    reveal(WindowView::client_audio);
    reveal(WindowView::audio_stream);
    let a = old(m)@;
    lemma_row_of_addr_is_first(a.clients, addr);
    if 0 <= i < a.clients.len() && connected_from(a.clients[i], addr) && (forall|j: int|
        0 <= j < i ==> !connected_from(#[trigger] a.clients[j], addr)) {
        let k = super::row_of_addr(a.clients, addr)->0;
        assert(super::row_of_addr(a.clients, addr) is Some);
        if k < i {
            assert(!connected_from(a.clients[k], addr));
        } else if i < k {
            assert(!connected_from(a.clients[i], addr));
        }
    }
}

/// A stream that begins gets a row of its own; one that goes on has its row
/// brought up to date; one that ends has it taken away; and of one that is not
/// known nothing shows when it ends.
pub proof fn lemma_streams_have_rows(
    m: &mut AppModel,
    addr: SocketAddr,
    active: bool,
    latency_ms: u32,
    packets_lost: u64,
    level: u32,
    v6: &str,
    ts: &str,
    i: int,
)
    requires
        active && !old(m)@.streams_by_addr.contains_key(addr) ==> old(m)@.next_row < u64::MAX,
        call_ensures(
            AppModel::frontend,
            (
                m,
                FrontendEvent::AudioStream { addr, active, latency_ms, packets_lost, level },
                v6,
                ts,
            ),
            (),
        ),
    ensures
        ({
            let a = old(m)@;
            let b = final(m)@;
            let known = a.streams_by_addr.contains_key(addr);
            let its = known && 0 <= i < a.streams.len() && a.streams[i].id
                == a.streams_by_addr[addr] && forall|j: int|
                0 <= j < a.streams.len() && j != i ==> (#[trigger] a.streams[j]).id
                    != a.streams_by_addr[addr];
            &&& active && !known ==> b == (WindowView {
                streams: a.streams.push(
                    AudioStreamRowModel { id: a.next_row, addr, latency_ms, packets_lost, level },
                ),
                streams_by_addr: a.streams_by_addr.insert(addr, a.next_row),
                next_row: (a.next_row + 1) as u64,
                clients: b.clients,
                log: b.log,
                ..a
            })
            &&& active && its ==> b == (WindowView {
                streams: a.streams.update(
                    i,
                    AudioStreamRowModel { latency_ms, packets_lost, level, ..a.streams[i] },
                ),
                clients: b.clients,
                log: b.log,
                ..a
            })
            &&& !active && its ==> b == (WindowView {
                streams: a.streams.remove(i),
                streams_by_addr: a.streams_by_addr.remove(addr),
                clients: b.clients,
                log: b.log,
                ..a
            })
            &&& !active && !known ==> b == (WindowView { clients: b.clients, log: b.log, ..a })
        }),
{
    let a = old(m)@;
    let e = FrontendEvent::AudioStream { addr, active, latency_ms, packets_lost, level };
    let logged = match crate::gui::logs::description(e@, v6@) {
        Some((c, text)) => WindowView { log: a.log.append(ts@, c, text), ..a },
        None => a,
    };
    lemma_client_audio_frame(logged, addr, active, latency_ms);
    let u = logged.client_audio(addr, active, latency_ms);
    lemma_stream_rows_of(u, addr, active, latency_ms, packets_lost, level, i);
}

/// What a stream changes at its client changes nothing else.
proof fn lemma_client_audio_frame(v: WindowView, addr: SocketAddr, active: bool, latency_ms: u32)
    ensures
        ({
            let u = v.client_audio(addr, active, latency_ms);
            u == (WindowView { clients: u.clients, ..v })
        }),
{
    reveal(WindowView::client_audio);
}

/// What a stream changes of the streams' rows.
proof fn lemma_stream_rows_of(
    a: WindowView,
    addr: SocketAddr,
    active: bool,
    latency_ms: u32,
    packets_lost: u64,
    level: u32,
    i: int,
)
    ensures
        ({
            let b = a.audio_stream(addr, active, latency_ms, packets_lost, level);
            let known = a.streams_by_addr.contains_key(addr);
            let its = known && 0 <= i < a.streams.len() && a.streams[i].id
                == a.streams_by_addr[addr] && forall|j: int|
                0 <= j < a.streams.len() && j != i ==> (#[trigger] a.streams[j]).id
                    != a.streams_by_addr[addr];
            &&& active && !known ==> b == (WindowView {
                streams: a.streams.push(
                    AudioStreamRowModel { id: a.next_row, addr, latency_ms, packets_lost, level },
                ),
                streams_by_addr: a.streams_by_addr.insert(addr, a.next_row),
                next_row: (a.next_row + 1) as u64,
                ..a
            })
            &&& active && its ==> b == (WindowView {
                streams: a.streams.update(
                    i,
                    AudioStreamRowModel { latency_ms, packets_lost, level, ..a.streams[i] },
                ),
                ..a
            })
            &&& !active && its ==> b == (WindowView {
                streams: a.streams.remove(i),
                streams_by_addr: a.streams_by_addr.remove(addr),
                ..a
            })
            &&& !active && !known ==> b == a
        }),
{
    reveal(WindowView::audio_stream);
    if a.streams_by_addr.contains_key(addr) {
        lemma_stream_row(a.streams, a.streams_by_addr[addr]);
    }
}

/// Whether there is a number left for the row that an event takes: there
/// always is, but for a device that enters, or a stream that begins, when all
/// were given out.
pub proof fn lemma_row_numbers(m: &AppModel, e: &FrontendEvent, b: bool)
    requires
        call_ensures(AppModel::has_row_number_for, (m, e), b),
    ensures
        m@.next_row < u64::MAX ==> b,
        !(e is DeviceEntered) && !(e is AudioStream) ==> b,
        m@.next_row == u64::MAX && *e is DeviceEntered ==> !b,
        m@.next_row == u64::MAX ==> (*e matches FrontendEvent::AudioStream { addr, active, .. }
            ==> b == (!active || m@.streams_by_addr.contains_key(addr))),
{
}

/// Clients that are listed have a row each, and nothing but the rows changes:
/// those that were there stay in their places, and what the list says of one
/// shows in its row.
pub proof fn lemma_listed_clients_have_rows(
    m: &mut AppModel,
    clients: Vec<(ClientHandle, ClientConfig, ClientState)>,
    v6: &str,
    ts: &str,
    k: int,
    i: int,
)
    requires
        one_row_per_client(old(m)@),
        call_ensures(AppModel::frontend, (m, FrontendEvent::Enumerate(clients), v6, ts), ()),
    ensures
        ({
            let a = old(m)@;
            let b = final(m)@;
            &&& b == (WindowView { clients: b.clients, log: b.log, ..a })
            &&& one_row_per_client(b)
            &&& a.clients.len() <= b.clients.len()
            &&& 0 <= k < clients@.len() ==> exists|j: int|
                0 <= j < b.clients.len() && (#[trigger] b.clients[j]).handle == clients@[k].0
            &&& 0 <= i < a.clients.len() ==> b.clients[i].handle == a.clients[i].handle
                && b.clients[i].audio_active == a.clients[i].audio_active
            &&& 0 <= i < a.clients.len() && (forall|j: int|
                0 <= j < clients@.len() ==> (#[trigger] clients@[j]).0 != a.clients[i].handle)
                ==> b.clients[i] == a.clients[i]
            &&& 0 <= i < b.clients.len() && 0 <= k < clients@.len() && clients@[k].0
                == b.clients[i].handle && (forall|j: int|
                k < j < clients@.len() ==> (#[trigger] clients@[j]).0 != clients@[k].0)
                ==> b.clients[i] == row_with(b.clients[i], clients@[k].1, clients@[k].2)
        }),
{
    let a = old(m)@;
    let b = final(m)@;
    let e = FrontendEvent::Enumerate(clients);
    let logged = match crate::gui::logs::description(e@, v6@) {
        Some((c, text)) => WindowView { log: a.log.append(ts@, c, text), ..a },
        None => a,
    };
    let list = crate::ipc::entry_views(clients@);
    assert(list.len() == clients@.len());
    assert forall|j: int| 0 <= j < list.len() implies #[trigger] list[j] == (
        clients@[j].0,
        clients@[j].1@,
        clients@[j].2@,
    ) by {}
    lemma_upserts_frame(logged, list);
    lemma_events_change_named_rows(logged, e, v6@);
    lemma_following_rows(a.clients, list, b.clients, k, i);
    if 0 <= i < a.clients.len() && (forall|j: int|
        0 <= j < clients@.len() ==> (#[trigger] clients@[j]).0 != a.clients[i].handle) {
        assert forall|j: int| 0 <= j < list.len() implies (#[trigger] list[j]).0
            != a.clients[i].handle by {
            assert(clients@[j].0 != a.clients[i].handle);
        }
    }
    if 0 <= i < b.clients.len() && 0 <= k < clients@.len() && clients@[k].0 == b.clients[i].handle
        && (forall|j: int| k < j < clients@.len() ==> (#[trigger] clients@[j]).0 != clients@[k].0) {
        assert forall|j: int| k < j < list.len() implies (#[trigger] list[j]).0 != list[k].0 by {
            assert(clients@[j].0 != clients@[k].0);
        }
    }
    if 0 <= k < clients@.len() {
        let j = choose|j: int|
            0 <= j < b.clients.len() && (#[trigger] b.clients[j]).handle == list[k].0;
        assert(b.clients[j].handle == clients@[k].0);
    }
}

/// What rows that follow a list show.
proof fn lemma_following_rows(
    before: Seq<ClientRowView>,
    list: Seq<ClientEntryView>,
    after: Seq<ClientRowView>,
    k: int,
    i: int,
)
    requires
        rows_follow(before, list, after),
    ensures
        before.len() <= after.len(),
        0 <= k < list.len() ==> exists|j: int|
            0 <= j < after.len() && (#[trigger] after[j]).handle == list[k].0,
        0 <= i < before.len() ==> after[i].handle == before[i].handle && after[i].audio_active
            == before[i].audio_active,
        0 <= i < before.len() && (forall|j: int|
            0 <= j < list.len() ==> (#[trigger] list[j]).0 != before[i].handle) ==> after[i]
            == before[i],
        0 <= i < after.len() && 0 <= k < list.len() && list[k].0 == after[i].handle && (forall|
            j: int,
        |
            k < j < list.len() ==> (#[trigger] list[j]).0 != list[k].0) ==> after[i] == (
        ClientRowView {
            hostname: list[k].1.hostname,
            port: list[k].1.port,
            position: list[k].1.pos,
            active: list[k].2.active,
            active_addr: list[k].2.active_addr,
            ..after[i]
        }),
{
    let ha = row_handles(before);
    let hb = row_handles(after);
    assert(ha.len() == before.len() && hb.len() == after.len());
    assert(hb.len() == ha.len() + new_handles(ha, list).len());
    if 0 <= k < list.len() {
        lemma_listed_have_rows(before, list, after);
        assert(hb.contains(list[k].0));
        let j = hb.index_of(list[k].0);
        assert(after[j].handle == list[k].0);
    }
    if 0 <= i < before.len() {
        assert(after[i] == with_entry(before[i], last_entry(list, before[i].handle)));
        if forall|j: int| 0 <= j < list.len() ==> (#[trigger] list[j]).0 != before[i].handle {
            lemma_no_entry(list, before[i].handle);
        }
    }
    if 0 <= i < after.len() && 0 <= k < list.len() && list[k].0 == after[i].handle && (forall|
        j: int,
    |
        k < j < list.len() ==> (#[trigger] list[j]).0 != list[k].0) {
        lemma_its_entry(list, k);
        if i >= before.len() {
            assert(added_row(list, after[i]));
        }
    }
}

/// What a list says last of a client.
proof fn lemma_its_entry(list: Seq<ClientEntryView>, k: int)
    requires
        0 <= k < list.len(),
        forall|j: int| k < j < list.len() ==> (#[trigger] list[j]).0 != list[k].0,
    ensures
        last_entry(list, list[k].0) == Some(list[k]),
    decreases list.len(),
{
    let n = (list.len() - 1) as int;
    assert(list[n] == list.last());
    if k < n {
        let init = list.drop_last();
        assert(list[n].0 != list[k].0);
        assert(init[k] == list[k]);
        assert forall|j: int| k < j < init.len() implies (#[trigger] init[j]).0 != init[k].0 by {
            assert(init[j] == list[j]);
        }
        lemma_its_entry(init, k);
    }
}

/// A list that does not name a client says nothing of it.
proof fn lemma_no_entry(list: Seq<ClientEntryView>, h: ClientHandle)
    requires
        forall|j: int| 0 <= j < list.len() ==> (#[trigger] list[j]).0 != h,
    ensures
        last_entry(list, h) is None,
    decreases list.len(),
{
    if list.len() > 0 {
        let n = (list.len() - 1) as int;
        assert(list[n] == list.last());
        let init = list.drop_last();
        assert forall|j: int| 0 <= j < init.len() implies (#[trigger] init[j]).0 != h by {
            assert(init[j] == list[j]);
        }
        lemma_no_entry(init, h);
    }
}

} // verus!
