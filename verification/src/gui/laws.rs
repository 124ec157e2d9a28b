//! What holds of what is typed, picked and logged.
//!
//! Each law speaks of calls: of what goes into them and what comes out.

use super::audio_page::{
    audio_bitrate_index, audio_device_label, audio_device_model, selected_audio_device,
    selected_bitrate,
};
use super::forms::{
    all_digits, authorized_key, digits_value, is_blank, pairing_config, parse_port,
    port_entry_text, port_on_focus_loss, position_from_selected, selected_from_position, trim,
    trimmed,
};
use super::logs::{
    describe, is_gtk_theme_parser_warning, last_value, status_str, visible_texts, LogCategory,
    LogEntryView, LogField, LogState, LogView,
};
use crate::ipc::{
    AudioDeviceInfo, ClientConfig, FrontendEvent, OperationMode, Position, Status, DEFAULT_PORT,
};
use crate::net::addr_text;
use crate::text::{decimal, joined, opt_view, stands_at, views};
use vstd::prelude::*;

verus! {

/// Bit rates from 64 to 256 kbit/s are on offer; what is picked is what is
/// shown as picked, and any other rate shows as 96 kbit/s.
pub proof fn lemma_bit_rates(i: u32, picked: Option<u32>, rate: u32, at: u32)
    requires
        call_ensures(selected_bitrate, (i,), picked),
        call_ensures(audio_bitrate_index, (rate,), at),
    ensures
        i == 0 ==> picked == Some(64_000u32),
        i == 1 ==> picked == Some(96_000u32),
        i == 2 ==> picked == Some(128_000u32),
        i == 3 ==> picked == Some(192_000u32),
        i == 4 ==> picked == Some(256_000u32),
        i > 4 ==> picked is None,
        picked == Some(rate) ==> at == i,
        !(rate == 64_000 || rate == 96_000 || rate == 128_000 || rate == 192_000 || rate
            == 256_000) ==> at == 1,
{
    let all = super::audio_page::AUDIO_BITRATES@;
    if all.contains(rate) {
        let k = all.index_of(rate);
        assert(all[k] == rate);
    }
    if picked == Some(rate) {
        assert(all[i as int] == rate);
        assert(all.contains(rate));
        super::audio_page::lemma_bitrates_differ(i as int, at as int);
    }
}

/// A device shows by its name, and a tap of the system's output as one.
pub proof fn lemma_device_labels(d: &AudioDeviceInfo, s: String)
    requires
        call_ensures(audio_device_label, (d,), s),
    ensures
        d.is_monitor ==> s@ == d.name@ + " (system audio)"@,
        !d.is_monitor ==> s@ == d.name@,
{
}

/// A picker shows the system's default and then every device, in order; what
/// is picked is the device that shows there.
pub proof fn lemma_device_picker(
    devices: &Vec<AudioDeviceInfo>,
    labels: Vec<String>,
    selected: u32,
    r: Option<String>,
    i: int,
    label: String,
)
    requires
        call_ensures(audio_device_model, (devices,), labels),
        call_ensures(selected_audio_device, (devices, selected), r),
        0 <= i < devices@.len(),
        call_ensures(audio_device_label, (&devices@[i],), label),
    ensures
        labels@.len() == devices@.len() + 1,
        labels@[0]@ == "System Default"@,
        labels@[i + 1]@ == label@,
        selected == 0 ==> r is None,
        selected > devices@.len() ==> r is None,
        selected == i + 1 ==> (r matches Some(id) && id@ == devices@[i].id@),
{
    let v = views(labels@);
    assert(v.len() == labels@.len());
    assert(v[0] == labels@[0]@);
    assert(v[i + 1] == labels@[i + 1]@);
}

/// A position picker offers left, right, top and bottom; what is picked is
/// what shows as picked.
pub proof fn lemma_position_picker(selected: u32, p: Position, pos: Position, i: u32)
    requires
        call_ensures(position_from_selected, (selected,), p),
        call_ensures(selected_from_position, (pos,), i),
    ensures
        selected == 0 ==> p == Position::Left,
        selected == 1 ==> p == Position::Right,
        selected == 2 ==> p == Position::Top,
        selected == 3 ==> p == Position::Bottom,
        selected > 3 ==> p == Position::Left,
        i < 4,
        selected == i ==> p == pos,
{
}

/// A text is what stands between two places of another, which has just blanks
/// before and behind them.
pub open spec fn without_blanks(s: Seq<char>, i: int, j: int, t: Seq<char>) -> bool {
    &&& 0 <= i <= j <= s.len()
    &&& s.subrange(i, j) == t
    &&& forall|k: int| 0 <= k < i ==> is_blank(#[trigger] s[k])
    &&& forall|k: int| j <= k < s.len() ==> is_blank(#[trigger] s[k])
}

/// A blank before a text.
proof fn lemma_blank_before(s: Seq<char>, i: int, j: int, t: Seq<char>)
    requires
        s.len() > 0,
        is_blank(s[0]),
        without_blanks(s.skip(1), i, j, t),
    ensures
        without_blanks(s, i + 1, j + 1, t),
{
    let u = s.skip(1);
    assert(s.subrange(i + 1, j + 1) =~= u.subrange(i, j));
    assert forall|k: int| 0 <= k < i + 1 implies is_blank(#[trigger] s[k]) by {
        if k > 0 {
            assert(u[k - 1] == s[k]);
        }
    }
    assert forall|k: int| j + 1 <= k < s.len() implies is_blank(#[trigger] s[k]) by {
        assert(u[k - 1] == s[k]);
    }
}

/// A blank behind a text.
proof fn lemma_blank_behind(s: Seq<char>, i: int, j: int, t: Seq<char>)
    requires
        s.len() > 0,
        is_blank(s.last()),
        without_blanks(s.drop_last(), i, j, t),
    ensures
        without_blanks(s, i, j, t),
{
    let u = s.drop_last();
    assert(s.subrange(i, j) =~= u.subrange(i, j));
    assert forall|k: int| 0 <= k < i implies is_blank(#[trigger] s[k]) by {
        assert(u[k] == s[k]);
    }
    assert forall|k: int| j <= k < s.len() implies is_blank(#[trigger] s[k]) by {
        if k < u.len() {
            assert(u[k] == s[k]);
        }
    }
}

/// What is left of a text without the blanks around it.
proof fn lemma_trimmed(s: Seq<char>)
    ensures
        trimmed(s).len() > 0 ==> !is_blank(trimmed(s)[0]) && !is_blank(trimmed(s).last()),
        exists|i: int, j: int| without_blanks(s, i, j, trimmed(s)),
    decreases s.len(),
{
    if s.len() == 0 {
        assert(s.subrange(0, 0) =~= s);
        assert(without_blanks(s, 0, 0, s));
    } else if is_blank(s[0]) {
        lemma_trimmed(s.skip(1));
        let (i, j) = choose|i: int, j: int| without_blanks(s.skip(1), i, j, trimmed(s.skip(1)));
        lemma_blank_before(s, i, j, trimmed(s));
    } else if is_blank(s.last()) {
        lemma_trimmed(s.drop_last());
        let (i, j) = choose|i: int, j: int|
            without_blanks(s.drop_last(), i, j, trimmed(s.drop_last()));
        lemma_blank_behind(s, i, j, trimmed(s));
    } else {
        assert(s.subrange(0, s.len() as int) =~= s);
        assert(without_blanks(s, 0, s.len() as int, s));
    }
}

/// The blanks around a text are dropped, and nothing else of it.
pub proof fn lemma_blanks_are_dropped(s: &str, r: String)
    requires
        call_ensures(trim, (s,), r),
    ensures
        r@.len() > 0 ==> !is_blank(r@[0]) && !is_blank(r@.last()),
        exists|i: int, j: int| without_blanks(s@, i, j, r@),
        is_blank(' ') && is_blank('\t') && is_blank('\n') && is_blank('\r'),
        !is_blank('a') && !is_blank('0') && !is_blank('-') && !is_blank('.') && !is_blank(':'),
{
    lemma_trimmed(s@);
}

/// A port is read from its digits, which may stand behind a plus sign, and
/// from nothing else.
pub proof fn lemma_port_is_read(s: &str, r: Option<u16>)
    requires
        call_ensures(parse_port, (s,), r),
    ensures
        s@.len() > 0 && all_digits(s@) && digits_value(s@) <= 65535 ==> (r matches Some(p) && p
            == digits_value(s@)),
        s@.len() > 1 && s@[0] == '+' && all_digits(s@.skip(1)) && digits_value(s@.skip(1)) <= 65535
            ==> (r matches Some(p) && p == digits_value(s@.skip(1))),
        s@.len() == 0 ==> r is None,
        all_digits(s@) && digits_value(s@) > 65535 ==> r is None,
        r is Some ==> all_digits(s@) || (s@.len() > 1 && s@[0] == '+' && all_digits(s@.skip(1))),
        all_digits(seq!['4', '2']) && digits_value(seq!['4', '2']) == 42,
{
    if s@.len() > 1 && s@[0] == '+' {
        assert(!super::forms::is_digit(s@[0]));
        if all_digits(s@.skip(1)) {
            super::forms::lemma_digits_grow(s@.skip(1), 0);
        }
    }
    if all_digits(s@) {
        super::forms::lemma_digits_grow(s@, 0);
    }
    reveal_with_fuel(digits_value, 3);
    assert(seq!['4', '2'].drop_last() =~= seq!['4']);
    assert(seq!['4'].drop_last() =~= seq![]);
}

/// A port shows by its digits, and the default one as nothing; what shows is
/// what is read when the entry loses the focus. Zero and what is no port are
/// not taken.
pub proof fn lemma_port_entry(port: u16, shown: String, t: &str, r: Option<u16>, u: &str, w: Option<u16>)
    requires
        call_ensures(port_entry_text, (port,), shown),
        t@ == shown@,
        call_ensures(port_on_focus_loss, (t,), r),
        call_ensures(port_on_focus_loss, (u,), w),
    ensures
        DEFAULT_PORT == 4242,
        port == 4242 ==> shown@.len() == 0,
        port != 4242 ==> shown@ == decimal(port as nat),
        port != 0 ==> r == Some(port),
        u@.len() == 0 ==> w == Some(4242u16),
        w != Some(0u16),
        all_digits(u@) && 0 < digits_value(u@) <= 65535 ==> (w matches Some(p) && p
            == digits_value(u@)),
        u@.len() > 0 && all_digits(u@) && (digits_value(u@) == 0 || digits_value(u@) > 65535) ==> w
            is None,
        u@.len() > 0 && u@[0] != '+' && !all_digits(u@) ==> w is None,
{
    super::forms::lemma_port_entry_reads_back(port);
    if u@.len() > 1 && u@[0] == '+' {
        assert(!super::forms::is_digit(u@[0]));
    }
    if u@.len() == 0 {
        assert(digits_value(u@) == 0);
    }
    if all_digits(u@) {
        super::forms::lemma_digits_grow(u@, 0);
    }
}

/// A device is paired by its fingerprint, without the blanks around it, at the
/// edge that was picked, under its name where one was given; without a
/// fingerprint it is not, and the user is told.
pub proof fn lemma_pairing_dialog(
    fingerprint: &str,
    name: &str,
    selected: u32,
    r: Result<ClientConfig, String>,
    f: String,
    n: String,
    p: Position,
)
    requires
        call_ensures(pairing_config, (fingerprint, name, selected), r),
        call_ensures(trim, (fingerprint,), f),
        call_ensures(trim, (name,), n),
        call_ensures(position_from_selected, (selected,), p),
    ensures
        f@.len() == 0 ==> (r matches Err(e) && e@ == "Enter the device's certificate fingerprint."@),
        f@.len() > 0 ==> (r matches Ok(c) && {
            &&& c.fingerprint is Some && c.fingerprint->0@ == f@
            &&& c.hostname is Some <==> n@.len() > 0
            &&& c.hostname is Some ==> c.hostname->0@ == n@
            &&& c.pos == p
            &&& c.port == 4242
            &&& c.fix_ips@.len() == 0
            &&& c.cmd is None
        }),
{
    if let Ok(c) = r {
        assert(c@.fingerprint == Some(f@));
    }
}

/// What is authorized in a dialog is what was typed, without the blanks around
/// it.
pub proof fn lemma_authorization_dialog(
    description: &str,
    fingerprint: &str,
    r: (String, String),
    d: String,
    f: String,
)
    requires
        call_ensures(authorized_key, (description, fingerprint), r),
        call_ensures(trim, (description,), d),
        call_ensures(trim, (fingerprint,), f),
    ensures
        r.0@ == d@,
        r.1@ == f@,
{
}

/// The value of the last field with a key.
proof fn lemma_last_value(fields: Seq<LogField>, key: Seq<char>, i: int)
    requires
        0 <= i < fields.len(),
        fields[i].0@ == key,
        forall|j: int| i < j < fields.len() ==> (#[trigger] fields[j]).0@ != key,
    ensures
        last_value(fields, key) == opt_view(fields[i].1),
    decreases fields.len(),
{
    let n = (fields.len() - 1) as int;
    assert(fields[n] == fields.last());
    if i < n {
        let init = fields.drop_last();
        assert forall|j: int| i < j < init.len() implies (#[trigger] init[j]).0@ != key by {
            assert(init[j] == fields[j]);
        }
        lemma_last_value(init, key, i);
    }
}

/// No field has the key.
proof fn lemma_no_value(fields: Seq<LogField>, key: Seq<char>)
    requires
        forall|j: int| 0 <= j < fields.len() ==> (#[trigger] fields[j]).0@ != key,
    ensures
        last_value(fields, key) is None,
    decreases fields.len(),
{
    if fields.len() > 0 {
        let n = (fields.len() - 1) as int;
        assert(fields[n] == fields.last());
        let init = fields.drop_last();
        assert forall|j: int| 0 <= j < init.len() implies (#[trigger] init[j]).0@ != key by {
            assert(init[j] == fields[j]);
        }
        lemma_no_value(init, key);
    }
}

/// A message of the toolkit is taken for a complaint of a theme where the last
/// field of its domain names the toolkit, and the last one of its text begins
/// so; without either field it is not.
pub proof fn lemma_theme_complaints(fields: &Vec<LogField>, b: bool, i: int, k: int)
    requires
        call_ensures(is_gtk_theme_parser_warning, (fields,), b),
    ensures
        ({
            let f = fields@;
            let domain = 0 <= i < f.len() && f[i].0@ == "GLIB_DOMAIN"@ && forall|j: int|
                i < j < f.len() ==> (#[trigger] f[j]).0@ != "GLIB_DOMAIN"@;
            let message = 0 <= k < f.len() && f[k].0@ == "MESSAGE"@ && forall|j: int|
                k < j < f.len() ==> (#[trigger] f[j]).0@ != "MESSAGE"@;
            &&& domain && message ==> (b <==> opt_view(f[i].1) == Some("Gtk"@) && f[k].1 is Some
                && stands_at(f[k].1->0@, 0, "Theme parser warning: gtk.css:"@))
            &&& (forall|j: int| 0 <= j < f.len() ==> (#[trigger] f[j]).0@ != "GLIB_DOMAIN"@) ==> !b
            &&& (forall|j: int| 0 <= j < f.len() ==> (#[trigger] f[j]).0@ != "MESSAGE"@) ==> !b
        }),
{
    let f = fields@;
    if 0 <= i < f.len() && f[i].0@ == "GLIB_DOMAIN"@ && forall|j: int|
        i < j < f.len() ==> (#[trigger] f[j]).0@ != "GLIB_DOMAIN"@ {
        lemma_last_value(f, "GLIB_DOMAIN"@, i);
    }
    if 0 <= k < f.len() && f[k].0@ == "MESSAGE"@ && forall|j: int|
        k < j < f.len() ==> (#[trigger] f[j]).0@ != "MESSAGE"@ {
        lemma_last_value(f, "MESSAGE"@, k);
    }
    if forall|j: int| 0 <= j < f.len() ==> (#[trigger] f[j]).0@ != "GLIB_DOMAIN"@ {
        lemma_no_value(f, "GLIB_DOMAIN"@);
    }
    if forall|j: int| 0 <= j < f.len() ==> (#[trigger] f[j]).0@ != "MESSAGE"@ {
        lemma_no_value(f, "MESSAGE"@);
    }
}

/// A line of the log is about something and says it.
pub open spec fn says(d: Option<(LogCategory, String)>, c: LogCategory, text: Seq<char>) -> bool {
    d matches Some((k, s)) && k == c && s@ == text
}

/// How a status is written.
pub open spec fn written(s: Status) -> Seq<char> {
    match s {
        Status::Enabled => "Enabled"@,
        Status::Disabled => "Disabled"@,
    }
}

/// What the log says of failures, whichever they are of.
pub proof fn lemma_failures_are_logged(e: &FrontendEvent, v6: &str, d: Option<(LogCategory, String)>)
    requires
        call_ensures(describe, (e, v6), d),
    ensures
        *e matches FrontendEvent::Error(m) ==> says(d, LogCategory::Errors, "error: "@ + m@),
        *e matches FrontendEvent::AudioError { addr: None, message } ==> says(
            d,
            LogCategory::Errors,
            "audio error: "@ + message@,
        ),
        *e matches FrontendEvent::AudioError { addr: Some(a), message } ==> says(
            d,
            LogCategory::Errors,
            "audio error ("@ + addr_text(a, v6@) + "): "@ + message@,
        ),
        *e matches FrontendEvent::ConnectionTested { error: Some(m), .. } ==> says(
            d,
            LogCategory::Errors,
            "connection test failed: "@ + m@,
        ),
        *e matches FrontendEvent::NoSuchClient(h) ==> says(
            d,
            LogCategory::Errors,
            "no such client: handle "@ + decimal(h as nat),
        ),
        *e matches FrontendEvent::PortChanged(p, Some(m)) ==> says(
            d,
            LogCategory::Connections,
            "port change to "@ + decimal(p as nat) + " failed: "@ + m@,
        ),
{
}

/// What the log says of connections and devices.
pub proof fn lemma_connections_are_logged(
    e: &FrontendEvent,
    v6: &str,
    d: Option<(LogCategory, String)>,
)
    requires
        call_ensures(describe, (e, v6), d),
    ensures
        *e matches FrontendEvent::ConnectionTested { error: None, .. } ==> says(
            d,
            LogCategory::Connections,
            "connection test succeeded"@,
        ),
        *e matches FrontendEvent::DeviceConnected { addr, .. } ==> says(
            d,
            LogCategory::Connections,
            "device connected: "@ + addr_text(addr, v6@),
        ),
        *e matches FrontendEvent::IncomingDisconnected(addr) ==> says(
            d,
            LogCategory::Connections,
            "incoming disconnected: "@ + addr_text(addr, v6@),
        ),
        *e matches FrontendEvent::DeviceEntered { addr, pos, .. } ==> says(
            d,
            LogCategory::Connections,
            "device entered ("@ + match pos {
                Position::Left => "left"@,
                Position::Right => "right"@,
                Position::Top => "top"@,
                Position::Bottom => "bottom"@,
            } + "): "@ + addr_text(addr, v6@),
        ),
        *e matches FrontendEvent::ConnectionAttempt { fingerprint } ==> says(
            d,
            LogCategory::Connections,
            "connection attempt, needs authorization: "@ + fingerprint@,
        ),
        *e matches FrontendEvent::ServerEndpoint { hostname, port, .. } ==> says(
            d,
            LogCategory::Connections,
            "server endpoint: "@ + (match hostname {
                Some(h) => h@,
                None => "-"@,
            }) + ":"@ + decimal(port as nat),
        ),
        *e matches FrontendEvent::AuthorizedUpdated(keys) ==> says(
            d,
            LogCategory::Connections,
            "authorized keys updated: "@ + decimal(crate::ipc::key_views(keys@).len())
                + " key(s)"@,
        ),
        *e is PublicKeyFingerprint ==> d is None,
{
}

/// What the log says of clients and of the service.
pub proof fn lemma_clients_are_logged(
    e: &FrontendEvent,
    v6: &str,
    d: Option<(LogCategory, String)>,
)
    requires
        call_ensures(describe, (e, v6), d),
    ensures
        *e matches FrontendEvent::Created(_, config, _) ==> says(
            d,
            LogCategory::Connections,
            "client created: "@ + match config.hostname {
                Some(h) => h@,
                None => "?"@,
            },
        ),
        *e matches FrontendEvent::Deleted(h) ==> says(
            d,
            LogCategory::Connections,
            "client deleted: handle "@ + decimal(h as nat),
        ),
        *e matches FrontendEvent::Enumerate(all) ==> says(
            d,
            LogCategory::Connections,
            "enumerated "@ + decimal(all@.len()) + " client(s)"@,
        ),
        *e matches FrontendEvent::PortChanged(p, None) ==> says(
            d,
            LogCategory::Connections,
            "listening on port "@ + decimal(p as nat),
        ),
        *e matches FrontendEvent::CaptureStatus(s) ==> says(
            d,
            LogCategory::Connections,
            "capture status: "@ + written(s),
        ),
        *e matches FrontendEvent::EmulationStatus(s) ==> says(
            d,
            LogCategory::Connections,
            "emulation status: "@ + written(s),
        ),
        *e matches FrontendEvent::OperationMode(m) ==> says(
            d,
            LogCategory::Connections,
            "operation mode: "@ + match m {
                OperationMode::Unconfigured => "Unconfigured"@,
                OperationMode::Server => "Server"@,
                OperationMode::Client => "Client"@,
            },
        ),
        *e is State ==> d is None,
{
}

/// What the log says of audio.
pub proof fn lemma_audio_is_logged(e: &FrontendEvent, v6: &str, d: Option<(LogCategory, String)>)
    requires
        call_ensures(describe, (e, v6), d),
    ensures
        *e matches FrontendEvent::AudioStatus { send, receive, bitrate, buffer_ms, .. } ==> says(
            d,
            LogCategory::Audio,
            "audio status: send="@ + (if send {
                "true"@
            } else {
                "false"@
            }) + " receive="@ + (if receive {
                "true"@
            } else {
                "false"@
            }) + " bitrate="@ + decimal(bitrate as nat) + " buffer="@ + decimal(buffer_ms as nat)
                + "ms"@,
        ),
        *e matches FrontendEvent::AudioDevices { capture, playback } ==> says(
            d,
            LogCategory::Audio,
            "audio devices: "@ + decimal(capture@.len()) + " capture, "@ + decimal(playback@.len())
                + " playback"@,
        ),
        *e matches FrontendEvent::AudioStream { addr, active, .. } ==> says(
            d,
            LogCategory::Audio,
            "audio stream "@ + addr_text(addr, v6@) + ": "@ + if active {
                "active"@
            } else {
                "inactive"@
            },
        ),
{
}

/// A status is written as it is named.
pub proof fn lemma_status_is_written(s: Status, r: &'static str)
    requires
        call_ensures(status_str, (s,), r),
    ensures
        r@ == written(s),
{
}

/// The entry that is made of a message: its time, what it is about, and what
/// it says; it shows where the filter lets it.
pub open spec fn entry_of(
    v: LogView,
    c: LogCategory,
    message: Seq<char>,
    ts: Seq<char>,
) -> LogEntryView {
    LogEntryView {
        category: c,
        text: ts + "  ["@ + (match c {
            LogCategory::Connections => "conn"@,
            LogCategory::Audio => "audio"@,
            LogCategory::Errors => "error"@,
        }) + "]  "@ + message,
        visible: v.filter is None || v.filter == Some(c),
    }
}

/// An entry comes last, behind all others; where there are five hundred
/// already the first one goes.
pub proof fn lemma_entry_comes_last(
    l: &mut LogState,
    c: LogCategory,
    message: &str,
    ts: &str,
    dropped: bool,
)
    requires
        old(l)@.entries.len() <= 500,
        call_ensures(LogState::append, (l, c, message, ts), dropped),
    ensures
        ({
            let v = old(l)@;
            let e = entry_of(v, c, message@, ts@);
            &&& dropped <==> v.entries.len() == 500
            &&& !dropped ==> final(l)@.entries == v.entries.push(e)
            &&& dropped ==> final(l)@.entries == v.entries.skip(1).push(e)
            &&& final(l)@.filter == v.filter
        }),
{
    let v = old(l)@;
    let e = entry_of(v, c, message@, ts@);
    if v.entries.len() == 500 {
        assert(v.entries.push(e).skip(1) =~= v.entries.skip(1).push(e));
    }
}

/// An event is logged with what is said of it, where anything is.
pub proof fn lemma_events_are_logged(
    l: &mut LogState,
    e: &FrontendEvent,
    v6: &str,
    ts: &str,
    dropped: bool,
    d: Option<(LogCategory, String)>,
)
    requires
        old(l)@.entries.len() <= 500,
        call_ensures(LogState::log_event, (l, e, v6, ts), dropped),
        call_ensures(describe, (e, v6), d),
    ensures
        d is None ==> final(l)@ == old(l)@ && !dropped,
        d matches Some((c, m)) ==> {
            let one = entry_of(old(l)@, c, m@, ts@);
            &&& dropped <==> old(l)@.entries.len() == 500
            &&& final(l)@.entries.len() > 0
            &&& final(l)@.entries.last() == one
            &&& !dropped ==> final(l)@.entries.drop_last() == old(l)@.entries
            &&& dropped ==> final(l)@.entries.drop_last() == old(l)@.entries.skip(1)
            &&& final(l)@.filter == old(l)@.filter
        },
{
    if let Some((c, m)) = d {
        let v = old(l)@;
        let one = entry_of(v, c, m@, ts@);
        if v.entries.len() == 500 {
            assert(v.entries.push(one).skip(1) =~= v.entries.skip(1).push(one));
            assert(final(l)@.entries.drop_last() =~= v.entries.skip(1));
        } else {
            assert(final(l)@.entries.drop_last() =~= v.entries);
        }
    }
}

/// A filter shows what it is about, no filter shows all; no entry is lost.
pub proof fn lemma_log_is_filtered(l: &mut LogState, filter: Option<LogCategory>, i: int)
    requires
        call_ensures(LogState::apply_filter, (l, filter), ()),
    ensures
        final(l)@.filter == filter,
        final(l)@.entries.len() == old(l)@.entries.len(),
        0 <= i < old(l)@.entries.len() ==> {
            let e = old(l)@.entries[i];
            final(l)@.entries[i] == (LogEntryView {
                visible: filter is None || filter == Some(e.category),
                ..e
            })
        },
{
}

/// What shows is copied, one line below the other, in order: a log of which
/// all shows in full, and one of which nothing does as nothing.
pub proof fn lemma_log_is_copied(l: &LogState, s: String)
    requires
        call_ensures(LogState::copy_visible, (l,), s),
    ensures
        (forall|i: int| 0 <= i < l@.entries.len() ==> (#[trigger] l@.entries[i]).visible) ==> s@
            == joined(l@.entries.map_values(|e: LogEntryView| e.text), "\n"@),
        (forall|i: int| 0 <= i < l@.entries.len() ==> !(#[trigger] l@.entries[i]).visible) ==> s@
            == joined(seq![], "\n"@),
        s@ == joined(
            l@.entries.filter(|e: LogEntryView| e.visible).map_values(
                |e: LogEntryView| e.text,
            ),
            "\n"@,
        ),
{
    lemma_visible(l@.entries);
    let all = l@.entries;
    let p = |e: LogEntryView| e.visible;
    if forall|i: int| 0 <= i < all.len() ==> (#[trigger] all[i]).visible {
        lemma_filter_all(all, p);
    }
    if forall|i: int| 0 <= i < all.len() ==> !(#[trigger] all[i]).visible {
        lemma_filter_none(all, p);
        assert(all.filter(p).map_values(|e: LogEntryView| e.text) =~= seq![]);
    }
}

/// The texts that show are those of the entries that do.
proof fn lemma_visible(entries: Seq<LogEntryView>)
    ensures
        visible_texts(entries) == entries.filter(|e: LogEntryView| e.visible).map_values(
            |e: LogEntryView| e.text,
        ),
    decreases entries.len(),
{
    reveal(Seq::filter);
    let p = |e: LogEntryView| e.visible;
    let t = |e: LogEntryView| e.text;
    if entries.len() > 0 {
        lemma_visible(entries.drop_last());
        let f = entries.drop_last().filter(p);
        if entries.last().visible {
            assert(f.push(entries.last()).map_values(t) =~= f.map_values(t).push(
                entries.last().text,
            ));
        }
    } else {
        assert(entries.filter(p).map_values(t) =~= seq![]);
    }
}

/// What lets all through keeps all.
proof fn lemma_filter_all(entries: Seq<LogEntryView>, p: spec_fn(LogEntryView) -> bool)
    requires
        forall|i: int| 0 <= i < entries.len() ==> p(#[trigger] entries[i]),
    ensures
        entries.filter(p) == entries,
    decreases entries.len(),
{
    reveal(Seq::filter);
    if entries.len() > 0 {
        let init = entries.drop_last();
        assert forall|i: int| 0 <= i < init.len() implies p(#[trigger] init[i]) by {
            assert(p(entries[i]));
        }
        lemma_filter_all(init, p);
        assert(p(entries[entries.len() - 1]));
        assert(init.push(entries.last()) =~= entries);
    }
}

/// What lets nothing through keeps nothing.
proof fn lemma_filter_none(entries: Seq<LogEntryView>, p: spec_fn(LogEntryView) -> bool)
    requires
        forall|i: int| 0 <= i < entries.len() ==> !p(#[trigger] entries[i]),
    ensures
        entries.filter(p).len() == 0,
    decreases entries.len(),
{
    reveal(Seq::filter);
    if entries.len() > 0 {
        let init = entries.drop_last();
        assert forall|i: int| 0 <= i < init.len() implies !p(#[trigger] init[i]) by {
            assert(!p(entries[i]));
        }
        lemma_filter_none(init, p);
        assert(!p(entries[entries.len() - 1]));
    }
}

/// The log is read as it is, begins empty and without a filter, and keeps its
/// filter when it is cleared.
pub proof fn lemma_log_is_read(
    new: LogState,
    l: &LogState,
    n: usize,
    i: usize,
    e: (&str, bool, bool),
    c: &mut LogState,
)
    requires
        call_ensures(LogState::new, (), new),
        call_ensures(LogState::len, (l,), n),
        i < l@.entries.len(),
        call_ensures(LogState::entry, (l, i), e),
        call_ensures(LogState::clear, (c,), ()),
    ensures
        new@.entries.len() == 0,
        new@.filter is None,
        n == l@.entries.len(),
        e.0@ == l@.entries[i as int].text,
        e.1 == l@.entries[i as int].visible,
        e.2 <==> l@.entries[i as int].category == LogCategory::Errors,
        final(c)@.entries.len() == 0,
        final(c)@.filter == old(c)@.filter,
{
}

} // verus!
