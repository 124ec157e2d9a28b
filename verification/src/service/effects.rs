//! What every event and request comes to.
//!
//! Each law speaks of calls: of what goes into them, what the service is
//! afterwards, and what is to be done.

use super::{
    incoming_index, kept_client, lemma_configured_manager, lemma_incoming_index, ActionView,
    DnsEvent, IncomingView, SavedConfig, SavedView, Service, ServiceView,
};
use crate::capture::{CaptureType, ICaptureEvent};
use crate::client::laws::only;
use crate::client::{configured_client, ClientView, ConfigClientView};
use crate::emulation::EmulationEvent;
use crate::ipc::{
    ClientHandle, ConfigView, FrontendEventView, FrontendRequest, OperationMode, Position,
    StateView, Status,
};
use crate::net::{distinct_ips, lemma_distinct_ips, IpAddr, SocketAddr};
use vstd::prelude::*;

verus! {

/// Between two states of the service nothing changed but what is to be done,
/// to which `acts` were added.
pub open spec fn adds(a: ServiceView, b: ServiceView, acts: Seq<ActionView>) -> bool {
    b == (ServiceView { actions: a.actions + acts, ..a })
}

/// A device that was turned away is offered to the user of a server, who may
/// authorize it; nobody else is asked.
pub proof fn lemma_turned_away_device_is_offered(s: &mut Service, fingerprint: String)
    requires
        call_ensures(
            Service::handle_capture_event,
            (s, ICaptureEvent::ConnectionAttempt { fingerprint }),
            (),
        ),
    ensures
        old(s)@.mode == OperationMode::Server ==> adds(
            old(s)@,
            final(s)@,
            seq![
                ActionView::Notify(
                    FrontendEventView::ConnectionAttempt { fingerprint: fingerprint@ },
                ),
            ],
        ),
        old(s)@.mode != OperationMode::Server ==> final(s)@ == old(s)@,
{
    assert(old(s)@.mode == OperationMode::Server ==> final(s)@.actions =~= old(s)@.actions + seq![
        ActionView::Notify(FrontendEventView::ConnectionAttempt { fingerprint: fingerprint@ }),
    ]);
}

/// Where every edge is taken, the user of a server is told of a device that
/// connected, and where it disconnects, of that; nobody else is told.
pub proof fn lemma_waiting_devices_are_told(s: &mut Service, addr: SocketAddr, fingerprint: String)
    requires
        old(s)@.mode == OperationMode::Server ==> old(s)@.clients.first_free_position() is None,
        call_ensures(
            Service::handle_capture_event,
            (s, ICaptureEvent::DeviceConnected { addr, fingerprint }),
            (),
        ),
    ensures
        old(s)@.mode == OperationMode::Server ==> adds(
            old(s)@,
            final(s)@,
            seq![
                ActionView::Notify(
                    FrontendEventView::DeviceConnected { addr, fingerprint: fingerprint@ },
                ),
            ],
        ),
        old(s)@.mode != OperationMode::Server ==> final(s)@ == old(s)@,
{
    assert(old(s)@.mode == OperationMode::Server ==> final(s)@.actions =~= old(s)@.actions + seq![
        ActionView::Notify(FrontendEventView::DeviceConnected { addr, fingerprint: fingerprint@ }),
    ]);
}

/// The user of a server is told of a device that was not paired and went.
pub proof fn lemma_gone_devices_are_told(s: &mut Service, addr: SocketAddr)
    requires
        call_ensures(
            Service::handle_capture_event,
            (s, ICaptureEvent::DeviceDisconnected { addr }),
            (),
        ),
    ensures
        old(s)@.mode == OperationMode::Server ==> adds(
            old(s)@,
            final(s)@,
            seq![ActionView::Notify(FrontendEventView::IncomingDisconnected(addr))],
        ),
        old(s)@.mode != OperationMode::Server ==> final(s)@ == old(s)@,
{
    assert(old(s)@.mode == OperationMode::Server ==> final(s)@.actions =~= old(s)@.actions + seq![
        ActionView::Notify(FrontendEventView::IncomingDisconnected(addr)),
    ]);
}

/// A port that was taken is the port from then on, and is told; one that was
/// not is told with the reason, beside the port that stays.
pub proof fn lemma_port_is_told(s: &mut Service, r: Result<u16, String>)
    requires
        call_ensures(Service::handle_capture_event, (s, ICaptureEvent::PortChanged(r)), ()),
    ensures
        match r {
            Ok(port) => final(s)@ == (ServiceView {
                port,
                actions: old(s)@.actions + seq![
                    ActionView::Notify(FrontendEventView::PortChanged(port, None)),
                ],
                ..old(s)@
            }),
            Err(why) => adds(
                old(s)@,
                final(s)@,
                seq![
                    ActionView::Notify(FrontendEventView::PortChanged(old(s)@.port, Some(why@))),
                ],
            ),
        },
{
    match r {
        Ok(port) => {
            assert(final(s)@.actions =~= old(s)@.actions + seq![
                ActionView::Notify(FrontendEventView::PortChanged(port, None)),
            ]);
        },
        Err(why) => {
            assert(final(s)@.actions =~= old(s)@.actions + seq![
                ActionView::Notify(FrontendEventView::PortChanged(old(s)@.port, Some(why@))),
            ]);
        },
    }
}

/// A client that changed is told as it is, or as gone where it is.
pub proof fn lemma_client_change_is_told(s: &mut Service, h: ClientHandle)
    requires
        call_ensures(Service::handle_capture_event, (s, ICaptureEvent::ClientStateChanged(h)), ()),
    ensures
        adds(
            old(s)@,
            final(s)@,
            seq![
                ActionView::Notify(
                    match old(s)@.clients.get(h) {
                        Some(c) => FrontendEventView::State(h, c.config, c.state),
                        None => FrontendEventView::NoSuchClient(h),
                    },
                ),
            ],
        ),
{
    assert(final(s)@.actions =~= old(s)@.actions + seq![final(s)@.actions.last()]);
}

/// How an audio stream stands is told as it came.
pub proof fn lemma_audio_stream_is_told(
    s: &mut Service,
    addr: SocketAddr,
    active: bool,
    latency_ms: u32,
    packets_lost: u64,
    level: u32,
)
    requires
        call_ensures(
            Service::handle_capture_event,
            (s, ICaptureEvent::AudioStream { addr, active, latency_ms, packets_lost, level }),
            (),
        ),
    ensures
        adds(
            old(s)@,
            final(s)@,
            seq![
                ActionView::Notify(
                    FrontendEventView::AudioStream {
                        addr,
                        active,
                        latency_ms,
                        packets_lost,
                        level,
                    },
                ),
            ],
        ),
{
    assert(final(s)@.actions =~= old(s)@.actions + seq![final(s)@.actions.last()]);
}

/// Whether input is captured is noted and told.
pub proof fn lemma_capture_status_is_told(s: &mut Service, on: bool)
    requires
        call_ensures(
            Service::handle_capture_event,
            (
                s,
                if on {
                    ICaptureEvent::CaptureEnabled
                } else {
                    ICaptureEvent::CaptureDisabled
                },
            ),
            (),
        ),
    ensures
        ({
            let status = if on {
                Status::Enabled
            } else {
                Status::Disabled
            };
            final(s)@ == (ServiceView {
                capture_status: status,
                actions: old(s)@.actions + seq![
                    ActionView::Notify(FrontendEventView::CaptureStatus(status)),
                ],
                ..old(s)@
            })
        }),
{
    assert(final(s)@.actions =~= old(s)@.actions + seq![final(s)@.actions.last()]);
}

/// When a client is entered its command runs, where it has one.
pub proof fn lemma_hook_runs(s: &mut Service, h: ClientHandle, c: ClientView)
    requires
        call_ensures(Service::handle_capture_event, (s, ICaptureEvent::ClientEntered(h)), ()),
    ensures
        old(s)@.clients.get(h) is None ==> final(s)@ == old(s)@,
        old(s)@.clients.get(h) == Some(c) ==> match c.config.cmd {
            Some(cmd) => adds(old(s)@, final(s)@, seq![ActionView::SpawnHook(cmd)]),
            None => final(s)@ == old(s)@,
        },
{
    if old(s)@.clients.get(h) == Some(c) && c.config.cmd is Some {
        assert(final(s)@.actions =~= old(s)@.actions + seq![final(s)@.actions.last()]);
    }
}

/// When the barrier of a device that entered is crossed, that device learns
/// that the pointer left; crossing any other barrier asks for nothing.
pub proof fn lemma_way_back_is_told(s: &mut Service, h: ClientHandle, i: int)
    requires
        call_ensures(Service::handle_capture_event, (s, ICaptureEvent::CaptureBegin(h)), ()),
    ensures
        (forall|j: int|
            0 <= j < old(s)@.incoming.len() ==> (#[trigger] old(s)@.incoming[j]).handle != h)
            ==> final(s)@ == old(s)@,
        0 <= i < old(s)@.incoming.len() && old(s)@.incoming[i].handle == h && (forall|j: int|
            0 <= j < i ==> (#[trigger] old(s)@.incoming[j]).handle != h) ==> adds(
            old(s)@,
            final(s)@,
            seq![ActionView::SendLeave(old(s)@.incoming[i].addr)],
        ),
{
    lemma_barrier_index(old(s)@.incoming, h);
    if super::barrier_index(old(s)@.incoming, h) is Some {
        let k = super::barrier_index(old(s)@.incoming, h)->0;
        if 0 <= i < old(s)@.incoming.len() && old(s)@.incoming[i].handle == h && (forall|j: int|
            0 <= j < i ==> (#[trigger] old(s)@.incoming[j]).handle != h) {
            assert(!(k < i));
            assert(!(i < k));
        }
        assert(final(s)@.actions =~= old(s)@.actions + seq![final(s)@.actions.last()]);
    }
}

/// A barrier is found where it first stands, and only if it is there.
proof fn lemma_barrier_index(incoming: Seq<IncomingView>, h: ClientHandle)
    ensures
        match super::barrier_index(incoming, h) {
            Some(i) => 0 <= i < incoming.len() && incoming[i].handle == h && forall|j: int|
                0 <= j < i ==> (#[trigger] incoming[j]).handle != h,
            None => forall|j: int| 0 <= j < incoming.len() ==> (#[trigger] incoming[j]).handle != h,
        },
    decreases incoming.len(),
{
    if incoming.len() > 0 {
        let init = incoming.drop_last();
        lemma_barrier_index(init, h);
        assert(forall|j: int| 0 <= j < init.len() ==> init[j] == incoming[j]);
    }
}

/// A client tells its user of the server it is connected to; nobody else does.
pub proof fn lemma_server_connection_is_told(s: &mut Service, addr: SocketAddr, fingerprint: String)
    requires
        call_ensures(
            Service::handle_emulation_event,
            (s, EmulationEvent::Connected { addr, fingerprint }),
            (),
        ),
    ensures
        old(s)@.mode == OperationMode::Client ==> adds(
            old(s)@,
            final(s)@,
            seq![
                ActionView::Notify(
                    FrontendEventView::DeviceConnected { addr, fingerprint: fingerprint@ },
                ),
            ],
        ),
        old(s)@.mode != OperationMode::Client ==> final(s)@ == old(s)@,
{
    if old(s)@.mode == OperationMode::Client {
        assert(final(s)@.actions =~= old(s)@.actions + seq![final(s)@.actions.last()]);
    }
}

/// What came of a connection test is told under the number it was asked with.
pub proof fn lemma_connection_test_is_told(s: &mut Service, request_id: u64, error: Option<String>)
    requires
        call_ensures(
            Service::handle_emulation_event,
            (s, EmulationEvent::ConnectionTested { request_id, error }),
            (),
        ),
    ensures
        adds(
            old(s)@,
            final(s)@,
            seq![
                ActionView::Notify(
                    FrontendEventView::ConnectionTested {
                        request_id,
                        error: match error {
                            Some(e) => Some(e@),
                            None => None,
                        },
                    },
                ),
            ],
        ),
{
    assert(final(s)@.actions =~= old(s)@.actions + seq![final(s)@.actions.last()]);
}

/// A pointer that comes in has this machine's own capture let go.
pub proof fn lemma_capture_lets_go(s: &mut Service)
    requires
        call_ensures(Service::handle_emulation_event, (s, EmulationEvent::ReleaseNotify), ()),
    ensures
        adds(old(s)@, final(s)@, seq![ActionView::CaptureRelease]),
{
    assert(final(s)@.actions =~= old(s)@.actions + seq![final(s)@.actions.last()]);
}

/// Where emulation is disabled no server is dialed any more, and the user is
/// told.
pub proof fn lemma_disabled_emulation_dials_nobody(s: &mut Service)
    requires
        call_ensures(Service::handle_emulation_event, (s, EmulationEvent::EmulationDisabled), ()),
    ensures
        final(s)@ == (ServiceView {
            emulation_status: Status::Disabled,
            actions: old(s)@.actions + seq![
                ActionView::SetServer(None),
                ActionView::Notify(FrontendEventView::EmulationStatus(Status::Disabled)),
            ],
            ..old(s)@
        }),
{
    assert(final(s)@.actions =~= old(s)@.actions + seq![
        ActionView::SetServer(None),
        ActionView::Notify(FrontendEventView::EmulationStatus(Status::Disabled)),
    ]);
}

/// All addresses that are known of the server: those that the user gave and
/// those that its name resolved to, each once, in ascending order.
pub open spec fn known_ips(v: ServiceView, ips: Seq<IpAddr>) -> bool {
    &&& ips.to_set() == v.endpoint.ips.to_set() + v.server_dns_ips.to_set()
    &&& crate::net::ascending(ips)
}

/// Where emulation is enabled a client dials its server, at every address that
/// is known of it, and the user is told.
pub proof fn lemma_enabled_emulation_dials(s: &mut Service)
    requires
        call_ensures(Service::handle_emulation_event, (s, EmulationEvent::EmulationEnabled), ()),
    ensures
        ({
            let a = old(s)@;
            let b = final(s)@;
            let told = ActionView::Notify(FrontendEventView::EmulationStatus(Status::Enabled));
            let nowhere = a.endpoint.ips.len() == 0 && a.server_dns_ips.len() == 0;
            &&& b == (ServiceView {
                emulation_status: Status::Enabled,
                actions: b.actions,
                ..a
            })
            &&& a.mode != OperationMode::Client || nowhere ==> b.actions == a.actions + seq![told]
            &&& a.mode == OperationMode::Client && !nowhere ==> {
                &&& b.actions.len() == a.actions.len() + 2
                &&& b.actions == a.actions + seq![b.actions[a.actions.len() as int], told]
                &&& b.actions[a.actions.len() as int] matches ActionView::SetServer(Some(t))
                    && known_ips(a, t.ips) && t.port == a.endpoint.port
            }
        }),
{
    reveal(ServiceView::push_server_target);
    let a = old(s)@;
    let b = final(s)@;
    let told = ActionView::Notify(FrontendEventView::EmulationStatus(Status::Enabled));
    lemma_server_ips(a);
    let m = ServiceView { emulation_status: Status::Enabled, ..a };
    assert(m.server_ips() == a.server_ips());
    if a.mode == OperationMode::Client && a.server_ips().len() > 0 {
        assert(b.actions =~= a.actions + seq![b.actions[a.actions.len() as int], told]);
    } else {
        assert(b.actions =~= a.actions + seq![told]);
    }
}

/// The addresses of the server are all that are known.
pub proof fn lemma_server_ips(v: ServiceView)
    ensures
        known_ips(v, v.server_ips()),
        v.server_ips().len() == 0 <==> v.endpoint.ips.len() == 0 && v.server_dns_ips.len() == 0,
{
    let all = v.endpoint.ips + v.server_dns_ips;
    crate::net::lemma_sorted_ips(all);
    let r = v.server_ips();
    vstd::seq_lib::seq_to_set_distributes_over_add(v.endpoint.ips, v.server_dns_ips);
    if r.len() == 0 {
        if all.len() > 0 {
            assert(all.contains(all[0]));
            assert(all.to_set().contains(all[0]));
            assert(r.to_set().contains(all[0]));
        }
    } else {
        assert(r.to_set().contains(r[0]));
        assert(all.to_set().contains(r[0]));
    }
}

/// A device that enters a client for the first time gets a barrier of its
/// own, at the edge where it entered, to detect the way back; from then on
/// input is captured, and the user is told.
pub proof fn lemma_device_enters(s: &mut Service, addr: SocketAddr, pos: Position, f: String)
    requires
        old(s)@.mode == OperationMode::Client,
        old(s)@.next_trigger < 0x8000_0000_0000_0000,
        forall|j: int|
            0 <= j < old(s)@.incoming.len() ==> (#[trigger] old(s)@.incoming[j]).addr != addr,
        call_ensures(
            Service::handle_emulation_event,
            (s, EmulationEvent::Entered { addr, pos, fingerprint: f }),
            (),
        ),
    ensures
        ({
            let a = old(s)@;
            let handle = (0x8000_0000_0000_0000 + a.next_trigger) as u64;
            final(s)@ == (ServiceView {
                incoming: a.incoming.push(IncomingView { handle, fingerprint: f@, addr, pos }),
                next_trigger: (a.next_trigger + 1) as u64,
                actions: a.actions + seq![
                    ActionView::CaptureSetEnabled(true),
                    ActionView::CaptureCreate(handle, pos, CaptureType::EnterOnly),
                    ActionView::Notify(
                        FrontendEventView::DeviceEntered { fingerprint: f@, addr, pos },
                    ),
                ],
                ..a
            })
        }),
{
    reveal(ServiceView::add_incoming);
    lemma_incoming_index(old(s)@.incoming, addr);
    let a = old(s)@;
    let handle = (0x8000_0000_0000_0000 + a.next_trigger) as u64;
    assert(final(s)@.actions =~= a.actions + seq![
        ActionView::CaptureSetEnabled(true),
        ActionView::CaptureCreate(handle, pos, CaptureType::EnterOnly),
        ActionView::Notify(FrontendEventView::DeviceEntered { fingerprint: f@, addr, pos }),
    ]);
}

/// `i` is the place of the device with an address.
pub open spec fn stands_at(incoming: Seq<IncomingView>, addr: SocketAddr, i: int) -> bool {
    &&& 0 <= i < incoming.len()
    &&& incoming[i].addr == addr
    &&& forall|j: int| 0 <= j < i ==> (#[trigger] incoming[j]).addr != addr
}

/// A device that entered is found at its place.
pub proof fn lemma_stands_at(incoming: Seq<IncomingView>, addr: SocketAddr, i: int)
    requires
        stands_at(incoming, addr, i),
    ensures
        incoming_index(incoming, addr) == Some(i),
{
    lemma_incoming_index(incoming, addr);
    let k = incoming_index(incoming, addr)->0;
    if k < i {
        assert(incoming[k].addr != addr);
    } else if i < k {
        assert(incoming[i].addr != addr);
    }
}

/// A device that enters again, the same one at the same edge, or one that
/// enters a machine that is no client, changes nothing.
pub proof fn lemma_device_enters_again(
    s: &mut Service,
    addr: SocketAddr,
    pos: Position,
    f: String,
    i: int,
)
    requires
        old(s)@.mode != OperationMode::Client || stands_at(old(s)@.incoming, addr, i) && old(
            s,
        )@.incoming[i].pos == pos && old(s)@.incoming[i].fingerprint == f@,
        call_ensures(
            Service::handle_emulation_event,
            (s, EmulationEvent::Entered { addr, pos, fingerprint: f }),
            (),
        ),
    ensures
        final(s)@ == old(s)@,
{
    reveal(ServiceView::update_incoming);
    if old(s)@.mode == OperationMode::Client {
        lemma_stands_at(old(s)@.incoming, addr, i);
    }
}

/// A device that enters at another edge, or as another device, gives up its
/// barrier and gets a new one there.
pub proof fn lemma_device_enters_elsewhere(
    s: &mut Service,
    addr: SocketAddr,
    pos: Position,
    f: String,
    i: int,
)
    requires
        old(s)@.mode == OperationMode::Client,
        old(s)@.next_trigger < 0x8000_0000_0000_0000,
        stands_at(old(s)@.incoming, addr, i),
        old(s)@.incoming[i].pos != pos || old(s)@.incoming[i].fingerprint != f@,
        call_ensures(
            Service::handle_emulation_event,
            (s, EmulationEvent::Entered { addr, pos, fingerprint: f }),
            (),
        ),
    ensures
        ({
            let a = old(s)@;
            let handle = (0x8000_0000_0000_0000 + a.next_trigger) as u64;
            let alone = if a.incoming.len() == 1 {
                seq![ActionView::CaptureSetEnabled(false)]
            } else {
                seq![]
            };
            final(s)@ == (ServiceView {
                incoming: a.incoming.remove(i).push(
                    IncomingView { handle, fingerprint: f@, addr, pos },
                ),
                next_trigger: (a.next_trigger + 1) as u64,
                actions: a.actions + seq![ActionView::CaptureDestroy(a.incoming[i].handle)] + alone
                    + seq![
                    ActionView::CaptureSetEnabled(true),
                    ActionView::CaptureCreate(handle, pos, CaptureType::EnterOnly),
                    ActionView::Notify(FrontendEventView::IncomingDisconnected(addr)),
                    ActionView::Notify(
                        FrontendEventView::DeviceEntered { fingerprint: f@, addr, pos },
                    ),
                ],
                ..a
            })
        }),
{
    reveal(ServiceView::add_incoming);
    reveal(ServiceView::remove_incoming);
    reveal(ServiceView::update_incoming);
    lemma_stands_at(old(s)@.incoming, addr, i);
    let a = old(s)@;
    let handle = (0x8000_0000_0000_0000 + a.next_trigger) as u64;
    let alone = if a.incoming.len() == 1 {
        seq![ActionView::CaptureSetEnabled(false)]
    } else {
        seq![]
    };
    assert(final(s)@.actions =~= a.actions + seq![ActionView::CaptureDestroy(a.incoming[i].handle)]
        + alone + seq![
        ActionView::CaptureSetEnabled(true),
        ActionView::CaptureCreate(handle, pos, CaptureType::EnterOnly),
        ActionView::Notify(FrontendEventView::IncomingDisconnected(addr)),
        ActionView::Notify(FrontendEventView::DeviceEntered { fingerprint: f@, addr, pos }),
    ]);
}

/// A device that is gone gives up its barrier; with the last one a client
/// stops capturing. The user is told, also where it never entered.
pub proof fn lemma_device_is_gone(s: &mut Service, addr: SocketAddr, i: int)
    requires
        call_ensures(
            Service::handle_emulation_event,
            (s, EmulationEvent::Disconnected { addr }),
            (),
        ),
    ensures
        ({
            let a = old(s)@;
            let told = seq![ActionView::Notify(FrontendEventView::IncomingDisconnected(addr))];
            let last = if a.mode == OperationMode::Client && a.incoming.len() == 1 {
                seq![ActionView::CaptureSetEnabled(false)]
            } else {
                seq![]
            };
            &&& stands_at(a.incoming, addr, i) ==> final(s)@ == (ServiceView {
                incoming: a.incoming.remove(i),
                actions: a.actions + seq![ActionView::CaptureDestroy(a.incoming[i].handle)] + last
                    + told,
                ..a
            })
            &&& (forall|j: int|
                0 <= j < a.incoming.len() ==> (#[trigger] a.incoming[j]).addr != addr) ==> adds(
                a,
                final(s)@,
                told,
            )
        }),
{
    reveal(ServiceView::remove_incoming);
    let a = old(s)@;
    let told = seq![ActionView::Notify(FrontendEventView::IncomingDisconnected(addr))];
    lemma_incoming_index(a.incoming, addr);
    if stands_at(a.incoming, addr, i) {
        lemma_stands_at(a.incoming, addr, i);
        let last = if a.mode == OperationMode::Client && a.incoming.len() == 1 {
            seq![ActionView::CaptureSetEnabled(false)]
        } else {
            seq![]
        };
        assert(final(s)@.actions =~= a.actions + seq![
            ActionView::CaptureDestroy(a.incoming[i].handle),
        ] + last + told);
    }
    if forall|j: int| 0 <= j < a.incoming.len() ==> (#[trigger] a.incoming[j]).addr != addr {
        assert(final(s)@.actions =~= a.actions + told);
    }
}

/// That a client's name is being resolved is noted and told.
pub proof fn lemma_resolving_is_told(s: &mut Service, h: ClientHandle, c: ClientView)
    requires
        h != 0xffff_ffff_ffff_ffff,
        old(s)@.clients.get(h) == Some(c),
        call_ensures(Service::handle_resolver_event, (s, DnsEvent::Resolving(h)), ()),
    ensures
        ({
            let d = ClientView { state: StateView { resolving: true, ..c.state }, ..c };
            let a = old(s)@;
            let b = final(s)@;
            &&& b.clients.get(h) == Some(d)
            &&& only(a.clients, b.clients, h)
            &&& b == (ServiceView {
                clients: b.clients,
                actions: a.actions + seq![
                    ActionView::Notify(FrontendEventView::State(h, d.config, d.state)),
                ],
                ..a
            })
        }),
{
    assert(final(s)@.actions =~= old(s)@.actions + seq![final(s)@.actions.last()]);
}

/// What a client's name resolved to is known of the client beside what the
/// user gave, and told. Where it could not be resolved, nothing is known.
pub proof fn lemma_resolved_name_is_told(
    s: &mut Service,
    h: ClientHandle,
    c: ClientView,
    ips: Option<Vec<IpAddr>>,
)
    requires
        h != 0xffff_ffff_ffff_ffff,
        old(s)@.clients.get(h) == Some(c),
        call_ensures(Service::handle_resolver_event, (s, DnsEvent::Resolved(h, ips)), ()),
    ensures
        ({
            let found = if ips is Some {
                ips->0@
            } else {
                seq![]
            };
            let d = ClientView {
                state: StateView {
                    resolving: false,
                    dns_ips: found,
                    ips: c.config.fix_ips.to_set() + found.to_set(),
                    ..c.state
                },
                ..c
            };
            let a = old(s)@;
            let b = final(s)@;
            &&& b.clients.get(h) == Some(d)
            &&& only(a.clients, b.clients, h)
            &&& b == (ServiceView {
                clients: b.clients,
                actions: a.actions + seq![
                    ActionView::Notify(FrontendEventView::State(h, d.config, d.state)),
                ],
                ..a
            })
        }),
{
    assert(final(s)@.actions =~= old(s)@.actions + seq![final(s)@.actions.last()]);
}

/// What the server's own name resolved to is where an enabled client dials,
/// beside what the user gave; that it is being resolved asks for nothing.
pub proof fn lemma_resolved_server_is_dialed(
    s: &mut Service,
    ips: Vec<IpAddr>,
    t: &mut Service,
)
    requires
        call_ensures(
            Service::handle_resolver_event,
            (s, DnsEvent::Resolved(0xffff_ffff_ffff_ffff, Some(ips))),
            (),
        ),
        call_ensures(
            Service::handle_resolver_event,
            (t, DnsEvent::Resolving(0xffff_ffff_ffff_ffff)),
            (),
        ),
    ensures
        final(t)@ == old(t)@,
        ({
            let a = old(s)@;
            let b = final(s)@;
            &&& b == (ServiceView { server_dns_ips: ips@, actions: b.actions, ..a })
            &&& a.mode == OperationMode::Client && a.emulation_status == Status::Enabled && (
            ips@.len() > 0 || a.endpoint.ips.len() > 0) ==> {
                &&& b.actions == a.actions + seq![b.actions.last()]
                &&& b.actions.last() matches ActionView::SetServer(Some(t)) && known_ips(b, t.ips)
                    && t.port == a.endpoint.port
            }
            &&& !(a.mode == OperationMode::Client && a.emulation_status == Status::Enabled && (
            ips@.len() > 0 || a.endpoint.ips.len() > 0)) ==> b.actions == a.actions
        }),
{
    reveal(ServiceView::push_server_target);
    let a = old(s)@;
    let b = final(s)@;
    let m = ServiceView { server_dns_ips: ips@, ..a };
    lemma_server_ips(m);
    if a.mode == OperationMode::Client && a.emulation_status == Status::Enabled && (ips@.len() > 0
        || a.endpoint.ips.len() > 0) {
        assert(b.actions =~= a.actions + seq![b.actions.last()]);
    }
}

/// A client of the configuration file is the one with this configuration and
/// state: it has its name, port, edge, command and fingerprint, each of its
/// fixed addresses once, and is active if it is.
pub open spec fn same_client(c: ConfigClientView, config: ConfigView, state: StateView) -> bool {
    &&& c.hostname == config.hostname
    &&& c.port == config.port
    &&& c.pos == config.pos
    &&& c.enter_hook == config.cmd
    &&& c.fingerprint == config.fingerprint
    &&& c.ips.no_duplicates()
    &&& c.ips.to_set() == config.fix_ips.to_set()
    &&& c.active == state.active
}

/// A configuration file holds what the service has: its settings, and each of
/// its clients, in the order of their handles.
pub open spec fn records(v: ServiceView, s: SavedView) -> bool {
    let all = v.clients.entries();
    &&& s.mode == v.configured
    &&& s.keys == v.keys
    &&& s.audio == v.audio
    &&& s.endpoint == v.endpoint
    &&& s.clients.len() == all.len()
    &&& forall|i: int|
        0 <= i < all.len() ==> same_client(#[trigger] s.clients[i], all[i].1, all[i].2)
}

/// After what was to be done before, `acts` are to be done and then the
/// configuration is written as it is.
pub open spec fn saves(a: ServiceView, b: ServiceView, acts: Seq<ActionView>) -> bool {
    &&& b.actions == a.actions + acts + seq![b.actions.last()]
    &&& b.actions.last() matches ActionView::SaveConfig(s) && records(b, s)
}

/// A client that is written and read again is the client it was: it agrees in
/// name, port, edge, command, fingerprint, the set of its fixed addresses, and
/// in whether it is active.
pub proof fn lemma_kept_client_loads_back(config: ConfigView, state: StateView)
    ensures
        same_client(kept_client(config, state), config, state),
        ({
            let d = configured_client(kept_client(config, state));
            &&& d.config.hostname == config.hostname
            &&& d.config.port == config.port
            &&& d.config.pos == config.pos
            &&& d.config.cmd == config.cmd
            &&& d.config.fingerprint == config.fingerprint
            &&& d.config.fix_ips.to_set() == config.fix_ips.to_set()
            &&& d.config.fix_ips.no_duplicates()
            &&& d.state.ips == config.fix_ips.to_set()
            &&& d.state.active == state.active
        }),
{
    lemma_distinct_ips(config.fix_ips);
    lemma_distinct_ips(distinct_ips(config.fix_ips));
}

/// The configuration is written in full, and nothing else happens.
pub proof fn lemma_configuration_is_saved(v: ServiceView)
    ensures
        saves(v, v.save_config(), seq![]),
        v.save_config() == (ServiceView { actions: v.save_config().actions, ..v }),
{
    reveal(ServiceView::save_config);
    let b = v.save_config();
    let all = v.clients.entries();
    assert(b.actions =~= v.actions + seq![] + seq![b.actions.last()]);
    let s = b.actions.last()->SaveConfig_0;
    assert forall|i: int| 0 <= i < all.len() implies same_client(
        #[trigger] s.clients[i],
        all[i].1,
        all[i].2,
    ) by {
        assert(s.clients[i] == kept_client(all[i].1, all[i].2));
        lemma_kept_client_loads_back(all[i].1, all[i].2);
    }
}

/// Writing the configuration comes last.
pub proof fn lemma_saves_last(a: ServiceView, m: ServiceView, acts: Seq<ActionView>)
    requires
        m.actions == a.actions + acts,
    ensures
        saves(a, m.save_config(), acts),
        m.save_config() == (ServiceView { actions: m.save_config().actions, ..m }),
{
    lemma_configuration_is_saved(m);
    let b = m.save_config();
    assert(b.actions =~= a.actions + acts + seq![b.actions.last()]);
}

/// What is saved loads back: a service that starts from what another wrote
/// has the same settings and role, and each of its clients, in the same order.
pub proof fn lemma_saved_configuration_loads_back(
    s: &mut Service,
    saved: SavedConfig,
    port: u16,
    fingerprint: String,
    t: Service,
    i: int,
)
    requires
        call_ensures(Service::handle_frontend_request, (s, FrontendRequest::SaveConfiguration), ()),
        final(s)@.actions.last() == ActionView::SaveConfig(saved@),
        call_ensures(Service::new, (saved, port, fingerprint), t),
    ensures
        t@.configured == old(s)@.configured,
        t@.keys == old(s)@.keys,
        t@.audio == old(s)@.audio,
        t@.endpoint == old(s)@.endpoint,
        t@.port == port,
        t@.fingerprint == fingerprint@,
        t@.actions.len() == 0,
        t@.incoming.len() == 0,
        t@.server_dns_ips.len() == 0,
        t@.next_trigger == 0,
        t@.capture_status == Status::Disabled,
        t@.emulation_status == Status::Disabled,
        t@.mode == match old(s)@.configured {
            Some(mode) => mode,
            None => if old(s)@.clients.entries().len() > 0 {
                OperationMode::Server
            } else if old(s)@.endpoint.hostname is Some || old(s)@.endpoint.ips.len() > 0 {
                OperationMode::Client
            } else {
                OperationMode::Unconfigured
            },
        },
        t@.clients.slots.len() == old(s)@.clients.entries().len(),
        0 <= i < old(s)@.clients.entries().len() ==> {
            let e = old(s)@.clients.entries()[i];
            t@.clients.slots[i] matches Some(d) && {
                &&& d.config.hostname == e.1.hostname
                &&& d.config.port == e.1.port
                &&& d.config.pos == e.1.pos
                &&& d.config.cmd == e.1.cmd
                &&& d.config.fingerprint == e.1.fingerprint
                &&& d.config.fix_ips.to_set() == e.1.fix_ips.to_set()
                &&& d.state.active == e.2.active
            }
        },
{
    lemma_configuration_is_saved(old(s)@);
    lemma_configured_manager(saved@.clients);
    let all = old(s)@.clients.entries();
    if 0 <= i < all.len() {
        assert(same_client(saved@.clients[i], all[i].1, all[i].2));
        lemma_distinct_ips(saved@.clients[i].ips);
    }
}

/// Where the server's name could not be resolved nothing is known from it: an
/// enabled client dials what the user gave, if anything.
pub proof fn lemma_unresolved_server(s: &mut Service)
    requires
        call_ensures(
            Service::handle_resolver_event,
            (s, DnsEvent::Resolved(0xffff_ffff_ffff_ffff, None)),
            (),
        ),
    ensures
        ({
            let a = old(s)@;
            let b = final(s)@;
            let dials = a.mode == OperationMode::Client && a.emulation_status == Status::Enabled
                && a.endpoint.ips.len() > 0;
            &&& b == (ServiceView { server_dns_ips: seq![], actions: b.actions, ..a })
            &&& !dials ==> b.actions == a.actions
            &&& dials ==> b.actions == a.actions + seq![b.actions.last()] && (b.actions.last()
                matches ActionView::SetServer(Some(t)) && known_ips(b, t.ips) && t.port
                == a.endpoint.port)
        }),
{
    reveal(ServiceView::push_server_target);
    let a = old(s)@;
    let b = final(s)@;
    let m = ServiceView { server_dns_ips: seq![], ..a };
    lemma_server_ips(m);
    if a.mode == OperationMode::Client && a.emulation_status == Status::Enabled
        && a.endpoint.ips.len() > 0 {
        assert(b.actions =~= a.actions + seq![b.actions.last()]);
    }
}

/// What is resolved for a client that is gone is told as such, and changes
/// nothing.
pub proof fn lemma_resolved_for_nobody(s: &mut Service, h: ClientHandle, e: DnsEvent)
    requires
        h != 0xffff_ffff_ffff_ffff,
        old(s)@.clients.get(h) is None,
        match e {
            DnsEvent::Resolving(k) => k == h,
            DnsEvent::Resolved(k, _) => k == h,
        },
        call_ensures(Service::handle_resolver_event, (s, e), ()),
    ensures
        adds(
            old(s)@,
            final(s)@,
            seq![ActionView::Notify(FrontendEventView::NoSuchClient(h))],
        ),
{
    assert(final(s)@.actions =~= old(s)@.actions + seq![final(s)@.actions.last()]);
}

} // verus!
