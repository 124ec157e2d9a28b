//! What the roles do: dialing, capturing, emulating, and changing over.

use super::effects::{adds, known_ips, lemma_saves_last, lemma_server_ips, records, saves};
use super::{
    Action, ActionView, EndpointView, IncomingView, ServerEndpoint, Service, ServiceView,
    StartPlan,
};
use crate::audio::{AudioSettings, AudioSettingsView};
use crate::capture::CaptureType;
use crate::client::{ClientManager, ClientView};
use crate::ipc::{
    device_views, AudioDeviceInfo, ClientHandle, FrontendEventView, FrontendRequest, OperationMode,
    Status,
};
use crate::net::IpAddr;
use crate::text::opt_view;
use vstd::prelude::*;

verus! {

/// The work asked for is taken out as it stands, in order, and none is left.
pub proof fn lemma_work_is_taken_out(s: &mut Service, r: Vec<Action>)
    requires
        call_ensures(Service::take_actions, (s,), r),
    ensures
        r@.len() == old(s)@.actions.len(),
        forall|i: int| 0 <= i < r@.len() ==> (#[trigger] r@[i])@ == old(s)@.actions[i],
        final(s)@ == (ServiceView { actions: seq![], ..old(s)@ }),
{
    let all = super::action_views(r@);
    assert(all.len() == r@.len());
    assert forall|i: int| 0 <= i < r@.len() implies (#[trigger] r@[i])@ == old(s)@.actions[i] by {
        assert(all[i] == r@[i]@);
    }
}

/// What is read of the service is what it is.
pub proof fn lemma_service_is_read(
    s: &Service,
    clients: &ClientManager,
    mode: OperationMode,
    room: bool,
    audio: AudioSettings,
)
    requires
        call_ensures(Service::clients, (s,), clients),
        call_ensures(Service::operation_mode, (s,), mode),
        call_ensures(Service::has_barriers, (s,), room),
        call_ensures(Service::audio_settings, (s,), audio),
    ensures
        clients@ == s@.clients,
        mode == s@.mode,
        room <==> s@.next_trigger < 0x8000_0000_0000_0000,
        audio@ == s@.audio,
{
}

/// The devices that were found are told as they were found.
pub proof fn lemma_found_devices_are_told(
    s: &mut Service,
    capture: Vec<AudioDeviceInfo>,
    playback: Vec<AudioDeviceInfo>,
)
    requires
        call_ensures(Service::audio_devices, (s, capture, playback), ()),
    ensures
        adds(
            old(s)@,
            final(s)@,
            seq![
                ActionView::Notify(
                    FrontendEventView::AudioDevices {
                        capture: device_views(capture@),
                        playback: device_views(playback@),
                    },
                ),
            ],
        ),
{
    assert(final(s)@.actions =~= old(s)@.actions + seq![final(s)@.actions.last()]);
}

/// What is asked of others is passed on as it was asked.
pub proof fn lemma_requests_for_others(s: &mut Service, r: FrontendRequest)
    requires
        r is TestConnection || r is EnumerateAudioDevices || r is Enumerate,
        call_ensures(Service::handle_frontend_request, (s, r), ()),
    ensures
        r matches FrontendRequest::TestConnection { request_id, hostname, port } ==> adds(
            old(s)@,
            final(s)@,
            seq![ActionView::TestConnection { request_id, hostname: hostname@, port }],
        ),
        r is EnumerateAudioDevices ==> adds(
            old(s)@,
            final(s)@,
            seq![ActionView::EnumerateAudioDevices],
        ),
        r is Enumerate ==> adds(
            old(s)@,
            final(s)@,
            seq![ActionView::Notify(FrontendEventView::Enumerate(old(s)@.clients.entries()))],
        ),
{
    assert(final(s)@.actions =~= old(s)@.actions + seq![final(s)@.actions.last()]);
}

/// A client's name is resolved on request, where there is a client and it has
/// a name.
pub proof fn lemma_name_is_looked_up(s: &mut Service, h: ClientHandle, c: ClientView)
    requires
        call_ensures(Service::handle_frontend_request, (s, FrontendRequest::ResolveDns(h)), ()),
    ensures
        old(s)@.clients.get(h) is None ==> final(s)@ == old(s)@,
        old(s)@.clients.get(h) == Some(c) ==> match c.config.hostname {
            Some(name) => adds(old(s)@, final(s)@, seq![ActionView::Resolve(h, name)]),
            None => final(s)@ == old(s)@,
        },
{
    if old(s)@.clients.get(h) == Some(c) && c.config.hostname is Some {
        assert(final(s)@.actions =~= old(s)@.actions + seq![final(s)@.actions.last()]);
    }
}

/// Capturing starts again on a server, and on a client that a device entered;
/// elsewhere it does not.
pub proof fn lemma_capture_is_asked_for(s: &mut Service)
    requires
        call_ensures(Service::handle_frontend_request, (s, FrontendRequest::EnableCapture), ()),
    ensures
        old(s)@.mode == OperationMode::Server || old(s)@.incoming.len() > 0 ==> adds(
            old(s)@,
            final(s)@,
            seq![ActionView::CaptureReenable],
        ),
        old(s)@.mode != OperationMode::Server && old(s)@.incoming.len() == 0 ==> final(s)@ == old(
            s,
        )@,
{
    if old(s)@.mode == OperationMode::Server || old(s)@.incoming.len() > 0 {
        assert(final(s)@.actions =~= old(s)@.actions + seq![final(s)@.actions.last()]);
    }
}

/// Emulating starts again on a client, and nowhere else.
pub proof fn lemma_emulation_is_asked_for(s: &mut Service)
    requires
        call_ensures(Service::handle_frontend_request, (s, FrontendRequest::EnableEmulation), ()),
    ensures
        old(s)@.mode == OperationMode::Client ==> adds(
            old(s)@,
            final(s)@,
            seq![ActionView::EmulationReenable],
        ),
        old(s)@.mode != OperationMode::Client ==> final(s)@ == old(s)@,
{
    if old(s)@.mode == OperationMode::Client {
        assert(final(s)@.actions =~= old(s)@.actions + seq![final(s)@.actions.last()]);
    }
}

/// The user starts what the role does: a server captures; a client emulates,
/// dials, and captures where a device entered. Without a role nothing starts.
pub proof fn lemma_service_is_started(s: &mut Service)
    requires
        call_ensures(
            Service::handle_frontend_request,
            (s, FrontendRequest::SetServiceRunning(true)),
            (),
        ),
    ensures
        ({
            let a = old(s)@;
            let b = final(s)@;
            let n = a.actions.len() as int;
            let dials = a.emulation_status == Status::Enabled && (a.endpoint.ips.len() > 0
                || a.server_dns_ips.len() > 0);
            let back = if a.incoming.len() > 0 {
                seq![ActionView::CaptureReenable]
            } else {
                seq![]
            };
            &&& a.mode == OperationMode::Unconfigured ==> b == a
            &&& a.mode == OperationMode::Server ==> adds(a, b, seq![ActionView::CaptureReenable])
            &&& a.mode == OperationMode::Client && !dials ==> adds(
                a,
                b,
                seq![ActionView::EmulationReenable] + back,
            )
            &&& a.mode == OperationMode::Client && dials ==> {
                &&& b.actions.len() > n + 1
                &&& adds(a, b, seq![ActionView::EmulationReenable, b.actions[n + 1]] + back)
                &&& b.actions[n + 1] matches ActionView::SetServer(Some(t)) && known_ips(a, t.ips)
                    && t.port == a.endpoint.port
            }
        }),
{
    reveal(ServiceView::set_service_running);
    reveal(ServiceView::push_server_target);
    let a = old(s)@;
    let b = final(s)@;
    let n = a.actions.len() as int;
    lemma_server_ips(a);
    let m = a.emit(ActionView::EmulationReenable);
    assert(m.server_ips() == a.server_ips());
    let back = if a.incoming.len() > 0 {
        seq![ActionView::CaptureReenable]
    } else {
        seq![]
    };
    if a.mode == OperationMode::Server {
        assert(b.actions =~= a.actions + seq![ActionView::CaptureReenable]);
    } else if a.mode == OperationMode::Client {
        if a.emulation_status == Status::Enabled && a.server_ips().len() > 0 {
            assert(b.actions =~= a.actions + (seq![
                ActionView::EmulationReenable,
                b.actions[n + 1],
            ] + back));
        } else {
            assert(b.actions =~= a.actions + (seq![ActionView::EmulationReenable] + back));
        }
    }
}

/// The user stops what the role does: a server captures no more; a client
/// emulates, dials and captures no more. The role stays.
pub proof fn lemma_service_is_stopped(s: &mut Service)
    requires
        call_ensures(
            Service::handle_frontend_request,
            (s, FrontendRequest::SetServiceRunning(false)),
            (),
        ),
    ensures
        ({
            let a = old(s)@;
            let b = final(s)@;
            &&& a.mode == OperationMode::Unconfigured ==> b == a
            &&& a.mode == OperationMode::Server ==> adds(
                a,
                b,
                seq![ActionView::CaptureSetEnabled(false)],
            )
            &&& a.mode == OperationMode::Client ==> adds(
                a,
                b,
                seq![
                    ActionView::EmulationSetEnabled(false),
                    ActionView::SetServer(None),
                    ActionView::CaptureSetEnabled(false),
                ],
            )
        }),
{
    reveal(ServiceView::set_service_running);
    let a = old(s)@;
    let b = final(s)@;
    if a.mode == OperationMode::Server {
        assert(b.actions =~= a.actions + seq![ActionView::CaptureSetEnabled(false)]);
    } else if a.mode == OperationMode::Client {
        assert(b.actions =~= a.actions + seq![
            ActionView::EmulationSetEnabled(false),
            ActionView::SetServer(None),
            ActionView::CaptureSetEnabled(false),
        ]);
    }
}

/// The frontends learn of everything: the clients, the role, how capturing and
/// emulating stand, the port, this device's fingerprint, the authorized ones,
/// the server, and the audio settings.
pub open spec fn everything(v: ServiceView) -> Seq<ActionView> {
    seq![
        ActionView::Notify(FrontendEventView::Enumerate(v.clients.entries())),
        ActionView::Notify(FrontendEventView::OperationMode(v.mode)),
        ActionView::Notify(FrontendEventView::EmulationStatus(v.emulation_status)),
        ActionView::Notify(FrontendEventView::CaptureStatus(v.capture_status)),
        ActionView::Notify(FrontendEventView::PortChanged(v.port, None)),
        ActionView::Notify(FrontendEventView::PublicKeyFingerprint(v.fingerprint)),
        ActionView::Notify(FrontendEventView::AuthorizedUpdated(v.keys)),
        ActionView::Notify(
            FrontendEventView::ServerEndpoint {
                hostname: v.endpoint.hostname,
                ips: v.endpoint.ips,
                port: v.endpoint.port,
            },
        ),
        ActionView::Notify(
            FrontendEventView::AudioStatus {
                send: v.audio.send,
                receive: v.audio.receive,
                bitrate: v.audio.bitrate,
                buffer_ms: v.audio.buffer_ms,
                loopback_supported: true,
            },
        ),
    ]
}

/// A frontend that asks learns of everything.
pub proof fn lemma_frontend_learns_everything(s: &mut Service)
    requires
        call_ensures(Service::handle_frontend_request, (s, FrontendRequest::Sync), ()),
    ensures
        adds(old(s)@, final(s)@, everything(old(s)@)),
{
    lemma_sync(old(s)@);
}

/// What learning of everything comes to.
pub proof fn lemma_sync(v: ServiceView)
    ensures
        adds(v, v.sync_frontend(), everything(v)),
{
    reveal(ServiceView::sync_frontend);
    assert(v.sync_frontend().actions =~= v.actions + everything(v));
}

/// The audio settings that the user makes are taken over, one by one, kept,
/// and told; everything else stays as it is.
pub proof fn lemma_audio_is_set_up(s: &mut Service, r: FrontendRequest)
    requires
        r is SetAudioSend || r is SetAudioReceive || r is UpdateAudioSettings
            || r is SetAudioCaptureDevice || r is SetAudioPlaybackDevice,
        call_ensures(Service::handle_frontend_request, (s, r), ()),
    ensures
        ({
            let a = old(s)@;
            let b = final(s)@;
            let n = a.actions.len() as int;
            &&& r matches FrontendRequest::SetAudioSend(on) ==> b.audio == (AudioSettingsView {
                send: on,
                ..a.audio
            })
            &&& r matches FrontendRequest::SetAudioReceive(on) ==> b.audio == (AudioSettingsView {
                receive: on,
                ..a.audio
            })
            &&& r matches FrontendRequest::UpdateAudioSettings { bitrate, buffer_ms } ==> b.audio
                == (AudioSettingsView { bitrate, buffer_ms, ..a.audio })
            &&& r matches FrontendRequest::SetAudioCaptureDevice(d) ==> b.audio == (
            AudioSettingsView { capture_device: opt_view(d), ..a.audio })
            &&& r matches FrontendRequest::SetAudioPlaybackDevice(d) ==> b.audio == (
            AudioSettingsView { playback_device: opt_view(d), ..a.audio })
            &&& b == (ServiceView { audio: b.audio, actions: b.actions, ..a })
            &&& b.actions.len() == n + 2
            &&& b.actions == a.actions + seq![
                b.actions[n],
                ActionView::Notify(
                    FrontendEventView::AudioStatus {
                        send: b.audio.send,
                        receive: b.audio.receive,
                        bitrate: b.audio.bitrate,
                        buffer_ms: b.audio.buffer_ms,
                        loopback_supported: true,
                    },
                ),
            ]
            &&& b.actions[n] matches ActionView::SaveConfig(c) && records(b, c)
        }),
{
    let a = old(s)@;
    let b = final(s)@;
    let n = a.actions.len() as int;
    let audio = match r {
        FrontendRequest::SetAudioSend(send) => AudioSettingsView { send, ..a.audio },
        FrontendRequest::SetAudioReceive(receive) => AudioSettingsView { receive, ..a.audio },
        FrontendRequest::UpdateAudioSettings { bitrate, buffer_ms } => AudioSettingsView {
            bitrate,
            buffer_ms,
            ..a.audio
        },
        FrontendRequest::SetAudioCaptureDevice(d) => AudioSettingsView {
            capture_device: opt_view(d),
            ..a.audio
        },
        FrontendRequest::SetAudioPlaybackDevice(d) => AudioSettingsView {
            playback_device: opt_view(d),
            ..a.audio
        },
        _ => a.audio,
    };
    let m = ServiceView { audio, ..a };
    assert(a.actions =~= a.actions + seq![]);
    lemma_saves_last(a, m, seq![]);
    let k = m.save_config();
    assert(b == k.notify_audio_status());
    assert(b.actions =~= a.actions + seq![b.actions[n], b.actions[n + 1]]);
}

/// A server that the user names is the one to dial: what another resolved to
/// is forgotten, its name is resolved, an enabled client dials the addresses
/// that were given, the frontends learn of it, and it is kept.
pub proof fn lemma_server_is_named(
    s: &mut Service,
    hostname: Option<String>,
    ips: Vec<IpAddr>,
    port: u16,
)
    requires
        call_ensures(
            Service::handle_frontend_request,
            (s, FrontendRequest::SetServer { hostname, ips, port }),
            (),
        ),
    ensures
        ({
            let a = old(s)@;
            let b = final(s)@;
            let name = match hostname {
                Some(h) => seq![ActionView::Resolve(0xffff_ffff_ffff_ffff, h@)],
                None => seq![],
            };
            let told = seq![
                ActionView::Notify(
                    FrontendEventView::ServerEndpoint {
                        hostname: opt_view(hostname),
                        ips: ips@,
                        port,
                    },
                ),
            ];
            let n = (a.actions.len() + name.len()) as int;
            &&& b == (ServiceView {
                endpoint: EndpointView { hostname: opt_view(hostname), ips: ips@, port },
                server_dns_ips: seq![],
                actions: b.actions,
                ..a
            })
            &&& if a.mode == OperationMode::Client && a.emulation_status == Status::Enabled
                && ips@.len() > 0 {
                &&& b.actions.len() > n
                &&& saves(a, b, name + seq![b.actions[n]] + told)
                &&& b.actions[n] matches ActionView::SetServer(Some(t)) && known_ips(b, t.ips)
                    && t.port == port
            } else {
                saves(a, b, name + told)
            }
        }),
{
    reveal(ServiceView::set_server_endpoint);
    reveal(ServiceView::push_server_target);
    let a = old(s)@;
    let b = final(s)@;
    let e = EndpointView { hostname: opt_view(hostname), ips: ips@, port };
    let m = a.set_server_endpoint(e);
    let w = ServiceView { endpoint: e, server_dns_ips: seq![], ..a };
    lemma_server_ips(w);
    let r = w.resolve_server();
    assert(r.server_ips() == w.server_ips());
    let name = match hostname {
        Some(h) => seq![ActionView::Resolve(0xffff_ffff_ffff_ffff, h@)],
        None => seq![],
    };
    let told = seq![
        ActionView::Notify(
            FrontendEventView::ServerEndpoint { hostname: opt_view(hostname), ips: ips@, port },
        ),
    ];
    let n = (a.actions.len() + name.len()) as int;
    assert(r.actions =~= a.actions + name);
    if a.mode == OperationMode::Client && a.emulation_status == Status::Enabled && ips@.len() > 0 {
        let acts = name + seq![m.actions[n]] + told;
        assert(m.actions =~= a.actions + acts);
        lemma_saves_last(a, m, acts);
        assert(b.actions[n] == m.actions[n]);
    } else {
        assert(m.actions =~= a.actions + (name + told));
        lemma_saves_last(a, m, name + told);
    }
}

/// Without a configured role the clients and the server tell which it is; what
/// runs from the start is what the role does.
pub proof fn lemma_roles_at_the_start(
    configured: Option<OperationMode>,
    clients: usize,
    endpoint: &ServerEndpoint,
    mode: OperationMode,
    plan: StartPlan,
)
    requires
        call_ensures(super::effective_mode, (configured, clients, endpoint), mode),
        call_ensures(super::start_plan, (mode,), plan),
    ensures
        configured is Some ==> Some(mode) == configured,
        configured is None && clients > 0 ==> mode == OperationMode::Server,
        configured is None && clients == 0 && (endpoint.hostname is Some || endpoint.ips@.len() > 0)
            ==> mode == OperationMode::Client,
        configured is None && clients == 0 && endpoint.hostname is None && endpoint.ips@.len() == 0
            ==> mode == OperationMode::Unconfigured,
        mode == OperationMode::Server ==> plan == (StartPlan {
            listen: true,
            capture: true,
            emulate: false,
        }),
        mode == OperationMode::Client ==> plan == (StartPlan {
            listen: false,
            capture: false,
            emulate: true,
        }),
        mode == OperationMode::Unconfigured ==> plan == (StartPlan {
            listen: false,
            capture: false,
            emulate: false,
        }),
{
}

/// A machine that gives up its role stops all that a role does.
pub proof fn lemma_role_is_given_up(v: ServiceView)
    ensures
        v.apply_operation_mode(OperationMode::Unconfigured) == (ServiceView {
            mode: OperationMode::Unconfigured,
            actions: v.actions + seq![
                ActionView::StopListening,
                ActionView::SetServer(None),
                ActionView::CaptureSetEnabled(false),
                ActionView::EmulationSetEnabled(false),
            ],
            ..v
        }),
{
    reveal(ServiceView::apply_operation_mode);
    assert(v.apply_operation_mode(OperationMode::Unconfigured).actions =~= v.actions + seq![
        ActionView::StopListening,
        ActionView::SetServer(None),
        ActionView::CaptureSetEnabled(false),
        ActionView::EmulationSetEnabled(false),
    ]);
}

/// Taking down barriers is asked for one by one.
proof fn lemma_barriers_down(v: ServiceView, handles: Seq<ClientHandle>)
    ensures
        adds(
            v,
            v.destroy_captures(handles),
            handles.map_values(|h: ClientHandle| ActionView::CaptureDestroy(h)),
        ),
    decreases handles.len(),
{
    let all = handles.map_values(|h: ClientHandle| ActionView::CaptureDestroy(h));
    if handles.len() == 0 {
        assert(v.actions =~= v.actions + all);
    } else {
        let init = handles.drop_last();
        lemma_barriers_down(v, init);
        let part = init.map_values(|h: ClientHandle| ActionView::CaptureDestroy(h));
        assert(part =~= all.drop_last());
        assert(v.destroy_captures(handles).actions =~= v.actions + all);
    }
}

/// A machine that becomes a client takes down the barrier of every active
/// client, accepts no more devices, captures no more, and resolves the name of
/// its server; it does not dial yet.
pub proof fn lemma_machine_becomes_a_client(v: ServiceView)
    ensures
        v.apply_operation_mode(OperationMode::Client) == (ServiceView {
            mode: OperationMode::Client,
            actions: v.actions + seq![ActionView::StopListening]
                + v.clients.active_handles().map_values(
                |h: ClientHandle| ActionView::CaptureDestroy(h),
            ) + seq![ActionView::CaptureSetEnabled(false)] + match v.endpoint.hostname {
                Some(name) => seq![ActionView::Resolve(0xffff_ffff_ffff_ffff, name)],
                None => seq![],
            },
            ..v
        }),
{
    reveal(ServiceView::apply_operation_mode);
    let handles = v.clients.active_handles();
    let down = handles.map_values(|h: ClientHandle| ActionView::CaptureDestroy(h));
    let w = ServiceView { mode: OperationMode::Client, ..v }.emit(ActionView::StopListening);
    lemma_barriers_down(w, handles);
    let name = match v.endpoint.hostname {
        Some(name) => seq![ActionView::Resolve(0xffff_ffff_ffff_ffff, name)],
        None => seq![],
    };
    assert(v.apply_operation_mode(OperationMode::Client).actions =~= v.actions + seq![
        ActionView::StopListening,
    ] + down + seq![ActionView::CaptureSetEnabled(false)] + name);
}

/// Putting up barriers is asked for one by one, each at its client's edge.
proof fn lemma_barriers_up(v: ServiceView, handles: Seq<ClientHandle>)
    requires
        forall|i: int| 0 <= i < handles.len() ==> v.clients.get(#[trigger] handles[i]) is Some,
    ensures
        adds(
            v,
            v.create_captures(handles),
            handles.map_values(
                |h: ClientHandle|
                    ActionView::CaptureCreate(
                        h,
                        v.clients.get(h)->0.config.pos,
                        CaptureType::Default,
                    ),
            ),
        ),
    decreases handles.len(),
{
    let f = |h: ClientHandle|
        ActionView::CaptureCreate(h, v.clients.get(h)->0.config.pos, CaptureType::Default);
    let all = handles.map_values(f);
    if handles.len() == 0 {
        assert(v.actions =~= v.actions + all);
    } else {
        let init = handles.drop_last();
        assert forall|i: int| 0 <= i < init.len() implies v.clients.get(
            #[trigger] init[i],
        ) is Some by {
            assert(init[i] == handles[i]);
        }
        lemma_barriers_up(v, init);
        let part = init.map_values(f);
        assert(part =~= all.drop_last());
        assert(v.clients.get(handles[handles.len() - 1]) is Some);
        assert(v.create_captures(handles).actions =~= v.actions + all);
    }
}

/// The active clients are all there.
pub proof fn lemma_active_handles(m: crate::client::ManagerView, i: int)
    requires
        m.slots.len() <= usize::MAX,
        0 <= i < m.active_handles().len(),
    ensures
        m.get(m.active_handles()[i]) matches Some(c) && c.state.active,
{
    crate::client::lemma_used_keys(m.slots);
    let keys = crate::client::used_keys(m.slots);
    let all = m.handles();
    let p = |h: ClientHandle| m.slots[h as int]->0.state.active;
    let r = all.filter(p);
    assert(r == m.active_handles());
    assert(r.contains(r[i]));
    all.lemma_filter_contains_rev(p, r[i]);
    let n = all.index_of(r[i]);
    assert(all[n] == keys[n] as u64);
    all.lemma_filter_pred(p, i);
}

/// A machine that becomes a server, with no device that entered, dials and
/// emulates no more, accepts devices, and puts up the barrier of every active
/// client at its edge; it does not capture yet.
pub proof fn lemma_machine_becomes_a_server(v: ServiceView)
    requires
        v.clients.slots.len() <= usize::MAX,
        v.incoming.len() == 0,
    ensures
        v.apply_operation_mode(OperationMode::Server) == (ServiceView {
            mode: OperationMode::Server,
            actions: v.actions + seq![
                ActionView::SetServer(None),
                ActionView::EmulationSetEnabled(false),
                ActionView::StartListening { port: v.port, audio: v.audio },
            ] + v.clients.active_handles().map_values(
                |h: ClientHandle|
                    ActionView::CaptureCreate(
                        h,
                        v.clients.get(h)->0.config.pos,
                        CaptureType::Default,
                    ),
            ),
            ..v
        }),
{
    reveal(ServiceView::apply_operation_mode);
    let handles = v.clients.active_handles();
    let w = ServiceView { mode: OperationMode::Server, ..v };
    let addrs = w.incoming.map_values(|i: IncomingView| i.addr);
    assert(addrs.len() == 0);
    assert(w.drop_incoming(addrs) == w);
    let x = w.emit(ActionView::SetServer(None)).emit(ActionView::EmulationSetEnabled(false)).emit(
        ActionView::StartListening { port: v.port, audio: v.audio },
    );
    assert forall|i: int| 0 <= i < handles.len() implies x.clients.get(
        #[trigger] handles[i],
    ) is Some by {
        lemma_active_handles(v.clients, i);
    }
    lemma_barriers_up(x, handles);
    let f = |h: ClientHandle|
        ActionView::CaptureCreate(h, v.clients.get(h)->0.config.pos, CaptureType::Default);
    let g = |h: ClientHandle|
        ActionView::CaptureCreate(h, x.clients.get(h)->0.config.pos, CaptureType::Default);
    assert(handles.map_values(f) =~= handles.map_values(g));
    assert(v.apply_operation_mode(OperationMode::Server).actions =~= v.actions + seq![
        ActionView::SetServer(None),
        ActionView::EmulationSetEnabled(false),
        ActionView::StartListening { port: v.port, audio: v.audio },
    ] + handles.map_values(f));
}

/// Devices that are gone give up their barriers, in the order in which they
/// entered, and are told.
proof fn lemma_all_devices_leave(v: ServiceView, addrs: Seq<crate::net::SocketAddr>, n: int)
    requires
        v.mode == OperationMode::Server,
        0 <= n <= v.incoming.len(),
        addrs == v.incoming.map_values(|i: IncomingView| i.addr),
        forall|i: int, j: int|
            0 <= i < j < v.incoming.len() ==> v.incoming[i].addr != v.incoming[j].addr,
    ensures
        ({
            let w = v.drop_incoming(addrs.take(n));
            &&& w == (ServiceView { incoming: v.incoming.skip(n), actions: w.actions, ..v })
            &&& w.actions.len() == v.actions.len() + 2 * n
            &&& forall|i: int|
                0 <= i < n ==> w.actions[v.actions.len() + 2 * i] == ActionView::CaptureDestroy(
                    (#[trigger] v.incoming[i]).handle,
                ) && w.actions[v.actions.len() + 2 * i + 1] == ActionView::Notify(
                    FrontendEventView::IncomingDisconnected(v.incoming[i].addr),
                )
            &&& w.actions.take(v.actions.len() as int) == v.actions
        }),
    decreases n,
{
    reveal(ServiceView::remove_incoming);
    if n == 0 {
        assert(addrs.take(0) =~= seq![]);
        assert(v.incoming.skip(0) =~= v.incoming);
        assert(v.actions.take(v.actions.len() as int) =~= v.actions);
    } else {
        lemma_all_devices_leave(v, addrs, n - 1);
        let u = v.drop_incoming(addrs.take(n - 1));
        let w = v.drop_incoming(addrs.take(n));
        assert(addrs.take(n).drop_last() =~= addrs.take(n - 1));
        assert(addrs.take(n).last() == v.incoming[n - 1].addr);
        let addr = v.incoming[n - 1].addr;
        assert(u.incoming[0] == v.incoming[n - 1]);
        super::effects::lemma_stands_at(u.incoming, addr, 0);
        assert(u.incoming.remove(0) =~= v.incoming.skip(n));
        assert(w.actions =~= u.actions.push(
            ActionView::CaptureDestroy(v.incoming[n - 1].handle),
        ).push(ActionView::Notify(FrontendEventView::IncomingDisconnected(addr))));
        assert(w.actions.take(v.actions.len() as int) =~= u.actions.take(v.actions.len() as int));
    }
}

/// A machine that becomes a server has every device that entered it leave: all
/// their barriers come down, in order, before anything of the new role begins.
pub proof fn lemma_devices_leave_a_server(v: ServiceView, i: int)
    requires
        v.clients.slots.len() <= usize::MAX,
        0 <= i < v.incoming.len(),
        forall|i: int, j: int|
            0 <= i < j < v.incoming.len() ==> v.incoming[i].addr != v.incoming[j].addr,
    ensures
        ({
            let w = v.apply_operation_mode(OperationMode::Server);
            let n = (v.actions.len() + 2 * v.incoming.len()) as int;
            &&& w.incoming.len() == 0
            &&& w.actions.len() >= n + 3
            &&& w.actions[v.actions.len() + 2 * i] == ActionView::CaptureDestroy(
                v.incoming[i].handle,
            )
            &&& w.actions[v.actions.len() + 2 * i + 1] == ActionView::Notify(
                FrontendEventView::IncomingDisconnected(v.incoming[i].addr),
            )
            &&& w.actions.subrange(n, n + 3) == seq![
                ActionView::SetServer(None),
                ActionView::EmulationSetEnabled(false),
                ActionView::StartListening { port: v.port, audio: v.audio },
            ]
            &&& w.actions.skip(n + 3) == v.clients.active_handles().map_values(
                |h: ClientHandle|
                    ActionView::CaptureCreate(
                        h,
                        v.clients.get(h)->0.config.pos,
                        CaptureType::Default,
                    ),
            )
            &&& w == (ServiceView {
                mode: OperationMode::Server,
                incoming: seq![],
                actions: w.actions,
                ..v
            })
        }),
{
    reveal(ServiceView::apply_operation_mode);
    let handles = v.clients.active_handles();
    let w = ServiceView { mode: OperationMode::Server, ..v };
    let addrs = w.incoming.map_values(|i: IncomingView| i.addr);
    lemma_all_devices_leave(w, addrs, w.incoming.len() as int);
    assert(addrs.take(w.incoming.len() as int) =~= addrs);
    let u = w.drop_incoming(addrs);
    assert(u.incoming =~= seq![]);
    let x = u.emit(ActionView::SetServer(None)).emit(ActionView::EmulationSetEnabled(false)).emit(
        ActionView::StartListening { port: v.port, audio: v.audio },
    );
    assert forall|i: int| 0 <= i < handles.len() implies x.clients.get(
        #[trigger] handles[i],
    ) is Some by {
        lemma_active_handles(v.clients, i);
    }
    lemma_barriers_up(x, handles);
    let f = |h: ClientHandle|
        ActionView::CaptureCreate(h, v.clients.get(h)->0.config.pos, CaptureType::Default);
    let g = |h: ClientHandle|
        ActionView::CaptureCreate(h, x.clients.get(h)->0.config.pos, CaptureType::Default);
    assert(handles.map_values(f) =~= handles.map_values(g));
    let y = v.apply_operation_mode(OperationMode::Server);
    let n = (v.actions.len() + 2 * v.incoming.len()) as int;
    assert(y.actions == x.actions + handles.map_values(f));
    assert(y.actions.subrange(n, n + 3) =~= seq![
        ActionView::SetServer(None),
        ActionView::EmulationSetEnabled(false),
        ActionView::StartListening { port: v.port, audio: v.audio },
    ]);
    assert(y.actions.skip(n + 3) =~= handles.map_values(f));
    assert(w.incoming[i] == v.incoming[i]);
}

/// A role that the user selects is changed over to, named in what is kept, and
/// told; the role that is there already is just told.
pub proof fn lemma_role_is_selected(s: &mut Service, mode: OperationMode)
    requires
        call_ensures(
            Service::handle_frontend_request,
            (s, FrontendRequest::SetOperationMode(mode)),
            (),
        ),
    ensures
        ({
            let a = old(s)@;
            let b = final(s)@;
            let told = ActionView::Notify(FrontendEventView::OperationMode(mode));
            let w = a.apply_operation_mode(mode);
            let n = b.actions.len() as int;
            &&& a.mode == mode ==> adds(a, b, seq![told])
            &&& a.mode != mode ==> {
                &&& b == (ServiceView { configured: Some(mode), actions: b.actions, ..w })
                &&& b.mode == mode
                &&& n >= 2
                &&& b.actions == w.actions + seq![b.actions[n - 2], told]
                &&& b.actions[n - 2] matches ActionView::SaveConfig(c) && records(b, c)
            }
        }),
{
    reveal(ServiceView::set_operation_mode);
    let a = old(s)@;
    let b = final(s)@;
    let told = ActionView::Notify(FrontendEventView::OperationMode(mode));
    if a.mode == mode {
        assert(b.actions =~= a.actions + seq![told]);
    } else {
        let w = a.apply_operation_mode(mode);
        a.lemma_mode_frame(mode);
        let m = ServiceView { configured: Some(mode), ..w };
        assert(m.actions =~= m.actions + seq![]);
        lemma_saves_last(m, m, seq![]);
        let n = b.actions.len() as int;
        assert(b.actions =~= w.actions + seq![b.actions[n - 2], told]);
    }
}

/// What is noted of the clients is noted in the service, and changes nothing
/// else of it.
pub proof fn lemma_clients_are_noted(s: &mut Service, c: &mut ClientManager)
    requires
        call_ensures(Service::clients_mut, (s,), c),
    ensures
        old(c)@ == old(s)@.clients,
        final(s)@ == (ServiceView { clients: final(c)@, ..old(s)@ }),
{
}

/// A copy of where the server is, is the same.
pub proof fn lemma_endpoint_is_copied(e: &ServerEndpoint, d: ServerEndpoint)
    requires
        call_ensures(<ServerEndpoint as Clone>::clone, (e,), d),
    ensures
        opt_view(d.hostname) == opt_view(e.hostname),
        d.ips@ == e.ips@,
        d.port == e.port,
{
    assert(d@ == e@);
}

} // verus!
