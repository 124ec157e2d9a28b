//! What the window's controls ask for.
//!
//! Each law speaks of a call: of what the window shows afterwards, and what
//! is to be done.

use super::{
    AppAction, AppActionView, AppModel, AppMsg, ClientRowOutput, Page, ScreenItem, WindowView,
};
use crate::gui::forms::{all_digits, digits_value};
use crate::gui::logs::{LogState, LogView};
use crate::gui::rows::{
    AudioStreamRowModel, ClientRowModel, IncomingDeviceRowModel, KeyRowModel,
};
use crate::ipc::{ClientHandle, FrontendRequestView, Position};
use crate::text::{decimal, joined, opt_view};
use vstd::prelude::*;

verus! {

/// Between two states of the window nothing changed but what is to be done, to
/// which `acts` were added.
pub open spec fn asks(a: WindowView, b: WindowView, acts: Seq<AppActionView>) -> bool {
    b == (WindowView { actions: a.actions + acts, ..a })
}

/// The window begins on the page of screens, with its defaults and nothing to
/// show, and asks for the audio devices.
pub proof fn lemma_window_opens(hostname: String, m: AppModel)
    requires
        call_ensures(AppModel::new, (hostname,), m),
    ensures
        m@.page == Page::Screens,
        m@.hostname == hostname@,
        m@.port == 4242,
        m@.port_draft.len() == 0 && !m@.port_editing,
        m@.pk_fingerprint.len() == 0,
        !m@.capture_active && !m@.emulation_active,
        m@.clients.len() == 0 && m@.authorized.len() == 0,
        m@.incoming.len() == 0 && m@.streams.len() == 0,
        m@.incoming_by_addr == Map::<crate::net::SocketAddr, u64>::empty(),
        m@.streams_by_addr == Map::<crate::net::SocketAddr, u64>::empty(),
        m@.next_row == 0,
        !m@.audio_send && !m@.audio_receive,
        m@.audio_bitrate == 96_000 && m@.audio_buffer_ms == 80,
        m@.audio_loopback_supported,
        m@.capture_devices.len() == 0 && m@.playback_devices.len() == 0,
        m@.log.entries.len() == 0 && m@.log.filter is None,
        !m@.authorization_open && !m@.fingerprint_open,
        m@.actions == seq![AppActionView::Request(FrontendRequestView::EnumerateAudioDevices)],
{
}

/// The work asked for is taken out as it stands, in order, and none is left.
pub proof fn lemma_window_work_is_taken_out(m: &mut AppModel, r: Vec<AppAction>, i: int)
    requires
        call_ensures(AppModel::take_actions, (m,), r),
    ensures
        r@.len() == old(m)@.actions.len(),
        0 <= i < r@.len() ==> r@[i]@ == old(m)@.actions[i],
        final(m)@ == (WindowView { actions: seq![], ..old(m)@ }),
{
    let all = super::app_actions(r@);
    assert(all.len() == r@.len());
    if 0 <= i < r@.len() {
        assert(all[i] == r@[i]@);
    }
}

/// Buttons that ask the service for one thing ask for just that.
pub proof fn lemma_plain_buttons(m: &mut AppModel, msg: AppMsg)
    requires
        msg is AddClient || msg is ToggleEmulation || msg is AudioSendToggled
            || msg is AudioReceiveToggled,
        call_ensures(AppModel::update, (m, msg), ()),
    ensures
        asks(
            old(m)@,
            final(m)@,
            seq![
                AppActionView::Request(
                    match msg {
                        AppMsg::AddClient => FrontendRequestView::Create,
                        AppMsg::ToggleEmulation => FrontendRequestView::EnableEmulation,
                        AppMsg::AudioSendToggled(on) => FrontendRequestView::SetAudioSend(on),
                        AppMsg::AudioReceiveToggled(on) => FrontendRequestView::SetAudioReceive(on),
                        _ => FrontendRequestView::Sync,
                    },
                ),
            ],
        ),
{
    assert(final(m)@.actions =~= old(m)@.actions + seq![final(m)@.actions.last()]);
}

/// A page that is picked shows; the permission that was granted asks for
/// nothing, and one that was revoked ends the program.
pub proof fn lemma_pages_and_permissions(m: &mut AppModel, msg: AppMsg)
    requires
        call_ensures(AppModel::update, (m, msg), ()),
    ensures
        msg matches AppMsg::NavigateTo(page) ==> final(m)@ == (WindowView { page, ..old(m)@ }),
        msg is PermissionGranted ==> final(m)@ == old(m)@,
        msg is PermissionRevoked ==> asks(old(m)@, final(m)@, seq![AppActionView::Quit]),
{
    if msg is PermissionRevoked {
        assert(final(m)@.actions =~= old(m)@.actions + seq![AppActionView::Quit]);
    }
}

/// What is copied is this machine's name, its fingerprint, or the lines of the
/// log that show.
pub proof fn lemma_what_is_copied(m: &mut AppModel, msg: AppMsg)
    requires
        call_ensures(AppModel::update, (m, msg), ()),
    ensures
        msg is CopyHostname ==> asks(
            old(m)@,
            final(m)@,
            seq![AppActionView::Clipboard(old(m)@.hostname)],
        ),
        msg is CopyFingerprint ==> asks(
            old(m)@,
            final(m)@,
            seq![AppActionView::Clipboard(old(m)@.pk_fingerprint)],
        ),
        msg is LogCopy ==> asks(
            old(m)@,
            final(m)@,
            seq![
                AppActionView::Clipboard(
                    joined(crate::gui::logs::visible_texts(old(m)@.log.entries), "\n"@),
                ),
            ],
        ),
{
    if msg is CopyHostname || msg is CopyFingerprint || msg is LogCopy {
        assert(final(m)@.actions =~= old(m)@.actions + seq![final(m)@.actions.last()]);
    }
}

/// What is typed into the port entry is kept; applied, its port is asked for,
/// or the default where it holds none; cancelled, the entry shows the port
/// that is in use, or nothing for the default.
pub proof fn lemma_port_is_edited(m: &mut AppModel, msg: AppMsg)
    requires
        call_ensures(AppModel::update, (m, msg), ()),
    ensures
        msg matches AppMsg::PortEntryChanged(text) ==> final(m)@ == (WindowView {
            port_draft: text@,
            port_editing: true,
            ..old(m)@
        }),
        ({
            let d = old(m)@.port_draft;
            let port = if d.len() > 0 && all_digits(d) && digits_value(d) <= 65535 {
                Some(digits_value(d) as u16)
            } else if d.len() == 0 || (all_digits(d) && digits_value(d) > 65535) || (d[0] != '+'
                && !all_digits(d)) {
                Some(4242u16)
            } else {
                None
            };
            msg is PortEditApply && port is Some ==> asks(
                old(m)@,
                final(m)@,
                seq![AppActionView::Request(FrontendRequestView::ChangePort(port->0))],
            )
        }),
        msg is PortEditCancel ==> final(m)@ == (WindowView {
            port_editing: false,
            actions: old(m)@.actions + seq![
                AppActionView::SetPortEntry(
                    if old(m)@.port == 4242 {
                        seq![]
                    } else {
                        decimal(old(m)@.port as nat)
                    },
                ),
            ],
            ..old(m)@
        }),
{
    reveal(WindowView::reset_port_entry);
    let d = old(m)@.port_draft;
    if d.len() > 1 && d[0] == '+' {
        assert(!crate::gui::forms::is_digit(d[0]));
    }
    if msg is PortEditApply || msg is PortEditCancel {
        assert(final(m)@.actions =~= old(m)@.actions + seq![final(m)@.actions.last()]);
    }
}

/// A screen that was moved has its client moved to the edge of that name; a
/// name of no edge asks for nothing.
pub proof fn lemma_screen_is_moved(m: &mut AppModel, h: ClientHandle, name: String, p: Position)
    requires
        call_ensures(AppModel::update, (m, AppMsg::ScreenPositionChanged(h, name)), ()),
    ensures
        name@ == (match p {
            Position::Left => "left"@,
            Position::Right => "right"@,
            Position::Top => "top"@,
            Position::Bottom => "bottom"@,
        }) ==> asks(
            old(m)@,
            final(m)@,
            seq![AppActionView::Request(FrontendRequestView::UpdatePosition(h, p))],
        ),
        name@ != "left"@ && name@ != "right"@ && name@ != "top"@ && name@ != "bottom"@ ==> old(m)@
            == final(m)@,
{
    if crate::ipc::position_text(p) == name@ {
        let q = choose|q: Position| crate::ipc::position_text(q) == name@;
        crate::ipc::lemma_position_text_injective(p, q);
        assert(final(m)@.actions =~= old(m)@.actions + seq![final(m)@.actions.last()]);
    }
}

/// The capture row's button asks for capturing, or where the system wants a
/// permission for it, for that first, and for a new start once it was granted.
pub proof fn lemma_capture_button(m: &mut AppModel, needs_permission: bool, granted: bool)
    requires
        call_ensures(
            AppModel::update,
            (m, AppMsg::ToggleCapture { needs_permission, granted }),
            (),
        ),
    ensures
        asks(
            old(m)@,
            final(m)@,
            if !needs_permission {
                seq![AppActionView::Request(FrontendRequestView::EnableCapture)]
            } else if granted {
                seq![AppActionView::Relaunch, AppActionView::Quit]
            } else {
                seq![AppActionView::OpenPermissionSettings]
            },
        ),
{
    if needs_permission && granted {
        assert(final(m)@.actions =~= old(m)@.actions + seq![
            AppActionView::Relaunch,
            AppActionView::Quit,
        ]);
    } else {
        assert(final(m)@.actions =~= old(m)@.actions + seq![final(m)@.actions.last()]);
    }
}

/// The audio device that is picked is asked for by its id; the first place is
/// the system's default.
pub proof fn lemma_audio_device_is_picked(m: &mut AppModel, i: u32, capture: bool)
    requires
        call_ensures(
            AppModel::update,
            (
                m,
                if capture {
                    AppMsg::AudioCaptureDeviceChanged(i)
                } else {
                    AppMsg::AudioPlaybackDeviceChanged(i)
                },
            ),
            (),
        ),
    ensures
        ({
            let devices = if capture {
                old(m)@.capture_devices
            } else {
                old(m)@.playback_devices
            };
            let id = if i == 0 || i > devices.len() {
                None
            } else {
                Some(devices[i - 1].id)
            };
            asks(
                old(m)@,
                final(m)@,
                seq![
                    AppActionView::Request(
                        if capture {
                            FrontendRequestView::SetAudioCaptureDevice(id)
                        } else {
                            FrontendRequestView::SetAudioPlaybackDevice(id)
                        },
                    ),
                ],
            )
        }),
{
    assert(final(m)@.actions =~= old(m)@.actions + seq![final(m)@.actions.last()]);
}

/// A bit rate or a delay that is picked shows, and is asked for beside the
/// other.
pub proof fn lemma_audio_quality_is_picked(m: &mut AppModel, msg: AppMsg)
    requires
        msg is AudioBitrateChanged || msg is AudioBufferChanged,
        call_ensures(AppModel::update, (m, msg), ()),
    ensures
        ({
            let bitrate = match msg {
                AppMsg::AudioBitrateChanged(i) => if i == 0 {
                    64_000u32
                } else if i == 2 {
                    128_000u32
                } else if i == 3 {
                    192_000u32
                } else if i == 4 {
                    256_000u32
                } else {
                    96_000u32
                },
                _ => old(m)@.audio_bitrate,
            };
            let buffer_ms = match msg {
                AppMsg::AudioBufferChanged(ms) => ms,
                _ => old(m)@.audio_buffer_ms,
            };
            final(m)@ == (WindowView {
                audio_bitrate: bitrate,
                audio_buffer_ms: buffer_ms,
                actions: old(m)@.actions + seq![
                    AppActionView::Request(
                        FrontendRequestView::UpdateAudioSettings { bitrate, buffer_ms },
                    ),
                ],
                ..old(m)@
            })
        }),
{
    assert(final(m)@.actions =~= old(m)@.actions + seq![final(m)@.actions.last()]);
}

/// The log shows what a filter is about, and is emptied where that is asked.
pub proof fn lemma_log_page(m: &mut AppModel, msg: AppMsg, i: int)
    requires
        call_ensures(AppModel::update, (m, msg), ()),
    ensures
        msg matches AppMsg::LogFilterChanged(f) ==> {
            let a = old(m)@.log.entries;
            let b = final(m)@.log.entries;
            &&& final(m)@ == (WindowView { log: final(m)@.log, ..old(m)@ })
            &&& final(m)@.log.filter == f
            &&& b.len() == a.len()
            &&& 0 <= i < a.len() ==> b[i].text == a[i].text && b[i].category == a[i].category && (
            b[i].visible <==> f is None || f == Some(a[i].category))
        },
        msg is LogClear ==> final(m)@ == (WindowView {
            log: LogView { entries: seq![], filter: old(m)@.log.filter },
            ..old(m)@
        }),
{
}

/// A control of a client's row asks for its client; an emptied name is none. A
/// row that is gone asks for nothing.
pub proof fn lemma_row_controls(m: &mut AppModel, o: ClientRowOutput)
    requires
        call_ensures(AppModel::update, (m, AppMsg::ClientRow(o)), ()),
    ensures
        ({
            let rows = old(m)@.clients;
            let i = match o {
                ClientRowOutput::Activate(i, _) => i,
                ClientRowOutput::Delete(i) => i,
                ClientRowOutput::RequestDns(i) => i,
                ClientRowOutput::HostnameChange(i, _) => i,
                ClientRowOutput::PortChange(i, _) => i,
                ClientRowOutput::PositionChange(i, _) => i,
            };
            let h = rows[i as int].handle;
            &&& i >= rows.len() ==> final(m)@ == old(m)@
            &&& i < rows.len() ==> asks(
                old(m)@,
                final(m)@,
                seq![
                    AppActionView::Request(
                        match o {
                            ClientRowOutput::Activate(_, on) => FrontendRequestView::Activate(
                                h,
                                on,
                            ),
                            ClientRowOutput::Delete(_) => FrontendRequestView::Delete(h),
                            ClientRowOutput::RequestDns(_) => FrontendRequestView::ResolveDns(h),
                            ClientRowOutput::HostnameChange(_, n) =>
                                FrontendRequestView::UpdateHostname(
                                h,
                                if n@.len() == 0 {
                                    None
                                } else {
                                    Some(n@)
                                },
                            ),
                            ClientRowOutput::PortChange(_, p) => FrontendRequestView::UpdatePort(
                                h,
                                p,
                            ),
                            ClientRowOutput::PositionChange(_, p) =>
                                FrontendRequestView::UpdatePosition(h, p),
                        },
                    ),
                ],
            )
        }),
{
    reveal(WindowView::row_output);
    if final(m)@ != old(m)@ {
        assert(final(m)@.actions =~= old(m)@.actions + seq![final(m)@.actions.last()]);
    }
    let i = match o {
        ClientRowOutput::Activate(i, _) => i,
        ClientRowOutput::Delete(i) => i,
        ClientRowOutput::RequestDns(i) => i,
        ClientRowOutput::HostnameChange(i, _) => i,
        ClientRowOutput::PortChange(i, _) => i,
        ClientRowOutput::PositionChange(i, _) => i,
    };
    if i < old(m)@.clients.len() {
        assert(final(m)@.actions =~= old(m)@.actions + seq![final(m)@.actions.last()]);
    }
}

/// The button of an authorized device takes its authorization back.
pub proof fn lemma_key_button(m: &mut AppModel, i: usize)
    requires
        call_ensures(AppModel::update, (m, AppMsg::DeleteKey(i)), ()),
    ensures
        i >= old(m)@.authorized.len() ==> final(m)@ == old(m)@,
        i < old(m)@.authorized.len() ==> asks(
            old(m)@,
            final(m)@,
            seq![
                AppActionView::Request(
                    FrontendRequestView::RemoveAuthorizedKey(old(m)@.authorized[i as int].1),
                ),
            ],
        ),
{
    if i < old(m)@.authorized.len() {
        assert(final(m)@.actions =~= old(m)@.actions + seq![final(m)@.actions.last()]);
    }
}

/// The dialogs: a device that is to be authorized is named in the second one,
/// once the first was closed; what is confirmed there is asked for. At most
/// one of each is open.
pub proof fn lemma_dialogs(m: &mut AppModel, msg: AppMsg)
    requires
        call_ensures(AppModel::update, (m, msg), ()),
    ensures
        ({
            let a = old(m)@;
            let b = final(m)@;
            let first = if a.authorization_open {
                seq![AppActionView::CloseAuthorization]
            } else {
                seq![]
            };
            let second = if a.fingerprint_open {
                seq![AppActionView::CloseFingerprint]
            } else {
                seq![]
            };
            &&& msg matches AppMsg::OpenFingerprintDialog(f) ==> b == (WindowView {
                fingerprint_open: true,
                actions: a.actions + second + seq![AppActionView::OpenFingerprint(opt_view(f))],
                ..a
            })
            &&& msg is AuthorizationCancelled ==> b == (WindowView {
                authorization_open: false,
                actions: a.actions + first,
                ..a
            })
            &&& msg matches AppMsg::AuthorizationConfirmed(f) ==> b == (WindowView {
                authorization_open: false,
                fingerprint_open: true,
                actions: a.actions + first + second + seq![
                    AppActionView::OpenFingerprint(Some(f@)),
                ],
                ..a
            })
            &&& msg matches AppMsg::FingerprintConfirmed(d, f) ==> b == (WindowView {
                fingerprint_open: false,
                actions: a.actions + second + seq![
                    AppActionView::Request(FrontendRequestView::AuthorizeKey(d@, f@)),
                ],
                ..a
            })
        }),
{
    reveal(WindowView::open_fingerprint);
    reveal(WindowView::close_fingerprint);
    reveal(WindowView::close_authorization);
    let a = old(m)@;
    let b = final(m)@;
    let first = if a.authorization_open {
        seq![AppActionView::CloseAuthorization]
    } else {
        seq![]
    };
    let second = if a.fingerprint_open {
        seq![AppActionView::CloseFingerprint]
    } else {
        seq![]
    };
    match msg {
        AppMsg::OpenFingerprintDialog(f) => {
            assert(b.actions =~= a.actions + second + seq![
                AppActionView::OpenFingerprint(opt_view(f)),
            ]);
        },
        AppMsg::AuthorizationCancelled => {
            assert(b.actions =~= a.actions + first);
        },
        AppMsg::AuthorizationConfirmed(f) => {
            assert(b.actions =~= a.actions + first + second + seq![
                AppActionView::OpenFingerprint(Some(f@)),
            ]);
        },
        AppMsg::FingerprintConfirmed(d, f) => {
            assert(b.actions =~= a.actions + second + seq![
                AppActionView::Request(FrontendRequestView::AuthorizeKey(d@, f@)),
            ]);
        },
        _ => {},
    }
}

/// Pages are named and found as they are, in the order of the list.
pub proof fn lemma_pages(p: Page, title: &'static str, name: &'static str, i: i32, at: Page)
    requires
        call_ensures(Page::title, (p,), title),
        call_ensures(Page::name, (p,), name),
        call_ensures(Page::from_nav_index, (i,), at),
    ensures
        p == Page::Screens ==> title@ == "Screens"@ && name@ == "screens"@,
        p == Page::Audio ==> title@ == "Audio"@ && name@ == "audio"@,
        p == Page::Logs ==> title@ == "Logs"@ && name@ == "logs"@,
        p == Page::Settings ==> title@ == "Settings"@ && name@ == "settings"@,
        i == 0 ==> at == Page::Screens,
        i == 1 ==> at == Page::Audio,
        i == 2 ==> at == Page::Logs,
        i < 0 || i > 2 ==> at == Page::Settings,
{
}

/// Each client has a screen, in the order of the rows, that shows it as its
/// row does.
pub proof fn lemma_screens_of_clients(m: &AppModel, r: Vec<ScreenItem>, i: int)
    requires
        call_ensures(AppModel::screen_items, (m,), r),
    ensures
        r@.len() == m@.clients.len(),
        0 <= i < r@.len() ==> {
            let c = m@.clients[i];
            &&& r@[i].handle == c.handle
            &&& opt_view(r@[i].hostname) == c.hostname
            &&& r@[i].position == c.position
            &&& r@[i].active == c.active
            &&& r@[i].audio_active == c.audio_active
        },
{
    let v = super::screen_views(r@);
    assert(v.len() == r@.len());
    if 0 <= i < r@.len() {
        assert(v[i] == r@[i]@);
    }
}

/// The status line tells what is off, and is a warning unless all is on; the
/// rows that turn things on show where they are off.
pub proof fn lemma_status_is_shown(
    m: &AppModel,
    text: &'static str,
    led: &'static str,
    needs_permission: bool,
    capture_row: bool,
    emulation_row: bool,
)
    requires
        call_ensures(AppModel::status_text, (m,), text),
        call_ensures(AppModel::status_led_css, (m,), led),
        call_ensures(AppModel::capture_row_visible, (m, needs_permission), capture_row),
        call_ensures(AppModel::emulation_row_visible, (m, needs_permission), emulation_row),
    ensures
        m@.capture_active && m@.emulation_active ==> text@ == "Running"@ && led@ == "success"@,
        m@.capture_active && !m@.emulation_active ==> text@ == "Emulation disabled"@ && led@
            == "warning"@,
        !m@.capture_active && m@.emulation_active ==> text@ == "Capture disabled"@ && led@
            == "warning"@,
        !m@.capture_active && !m@.emulation_active ==> text@ == "Capture & emulation disabled"@
            && led@ == "warning"@,
        !needs_permission ==> capture_row == !m@.capture_active && emulation_row
            == !m@.emulation_active,
        needs_permission ==> capture_row == (!m@.capture_active || !m@.emulation_active)
            && !emulation_row,
{
}

/// What is read of the window is what it shows.
pub proof fn lemma_window_is_read(
    m: &AppModel,
    page: Page,
    editing: bool,
    clients: &Vec<ClientRowModel>,
    authorized: &Vec<KeyRowModel>,
    incoming: &Vec<IncomingDeviceRowModel>,
    streams: &Vec<AudioStreamRowModel>,
    log: &LogState,
    rows_left: bool,
)
    requires
        call_ensures(AppModel::page, (m,), page),
        call_ensures(AppModel::port_editing, (m,), editing),
        call_ensures(AppModel::client_rows, (m,), clients),
        call_ensures(AppModel::authorized_rows, (m,), authorized),
        call_ensures(AppModel::incoming_rows, (m,), incoming),
        call_ensures(AppModel::stream_rows, (m,), streams),
        call_ensures(AppModel::log, (m,), log),
        call_ensures(AppModel::has_row_numbers, (m,), rows_left),
    ensures
        page == m@.page,
        editing == m@.port_editing,
        clients@.map_values(|r: ClientRowModel| r@) == m@.clients,
        authorized@.map_values(|r: KeyRowModel| r@) == m@.authorized,
        incoming@.map_values(|r: IncomingDeviceRowModel| r@) == m@.incoming,
        streams@ == m@.streams,
        log@ == m@.log,
        rows_left <==> m@.next_row != u64::MAX,
{
}

/// The capture row says what is wanted of the user.
pub proof fn lemma_capture_row(
    needs_permission: bool,
    granted: bool,
    title: &'static str,
    subtitle: &'static str,
    button: &'static str,
)
    requires
        call_ensures(super::capture_row_title, (needs_permission, granted), title),
        call_ensures(super::capture_row_subtitle, (needs_permission, granted), subtitle),
        call_ensures(super::capture_row_button_label, (needs_permission, granted), button),
    ensures
        !needs_permission ==> title@ == "input capture is disabled"@ && subtitle@
            == "required for outgoing and incoming connections"@ && button@ == "Reenable"@,
        needs_permission && !granted ==> title@ == "input capture is disabled"@ && subtitle@
            == "grant Accessibility permission to enable"@ && button@ == "Grant"@,
        needs_permission && granted ==> title@ == "relaunch required"@ && subtitle@
            == "Accessibility granted — restart to activate capture and emulation"@ && button@
            == "Relaunch"@,
{
}

} // verus!
