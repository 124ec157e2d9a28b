//! The log page.

use crate::ipc::{
    mode_name, position_text, FrontendEvent, FrontendEventView, Status,
};
use crate::text::{
    bool_text, bool_view, chars_of, clone_opt, concat2, concat3, decimal, decimal_text, is_at, join,
    joined, opt_is, opt_view, same, stands_at,
};
use crate::net::{addr_string, addr_text};
use vstd::prelude::*;

verus! {

/// What a log entry is about.
#[derive(Clone, Copy, Debug, PartialEq, Eq, Structural)]
pub enum LogCategory {
    Connections,
    Audio,
    Errors,
}

/// The most entries that are kept.
pub const MAX_LOG_ENTRIES: usize = 500;

/// The name of a status.
pub open spec fn status_name(s: Status) -> Seq<char> {
    match s {
        Status::Enabled => "Enabled"@,
        Status::Disabled => "Disabled"@,
    }
}

/// The name of a status.
pub fn status_str(s: Status) -> (r: &'static str)
    ensures
        r@ == status_name(s),
{
    match s {
        Status::Enabled => "Enabled",
        Status::Disabled => "Disabled",
    }
}

/// A field of a message of the toolkit: its key, and its value where that is
/// text.
pub type LogField = (String, Option<String>);

/// The value of the last field with a key.
pub open spec fn last_value(fields: Seq<LogField>, key: Seq<char>) -> Option<Seq<char>>
    decreases fields.len(),
{
    if fields.len() == 0 {
        None
    } else if fields.last().0@ == key {
        opt_view(fields.last().1)
    } else {
        last_value(fields.drop_last(), key)
    }
}

/// A message in which the toolkit complains of a theme.
pub open spec fn theme_warning(fields: Seq<LogField>) -> bool {
    &&& last_value(fields, "GLIB_DOMAIN"@) == Some("Gtk"@)
    &&& last_value(fields, "MESSAGE"@) matches Some(m) && stands_at(
        m,
        0,
        "Theme parser warning: gtk.css:"@,
    )
}

/// The value of the last field with a key.
fn find_value(fields: &Vec<LogField>, key: &str) -> (v: Option<String>)
    ensures
        opt_view(v) == last_value(fields@, key@),
{
    let mut n: usize = fields.len();
    assert(fields@.take(n as int) =~= fields@);
    while n > 0
        invariant
            n <= fields@.len(),
            last_value(fields@, key@) == last_value(fields@.take(n as int), key@),
        decreases n,
    {
        let f = &fields[n - 1];
        assert(fields@.take(n as int).last() == *f);
        assert(fields@.take(n as int).drop_last() =~= fields@.take(n - 1));
        if same(f.0.as_str(), key) {
            return clone_opt(&f.1);
        }
        n = n - 1;
    }
    None
}

/// Whether the toolkit complains of a theme that is not this program's. Such
/// a message is not worth showing.
pub fn is_gtk_theme_parser_warning(fields: &Vec<LogField>) -> (b: bool)
    ensures
        b == theme_warning(fields@),
{
    if !opt_is(&find_value(fields, "GLIB_DOMAIN"), "Gtk") {
        return false;
    }
    match find_value(fields, "MESSAGE") {
        Some(m) => is_at(
            &chars_of(m.as_str()),
            0,
            &chars_of("Theme parser warning: gtk.css:"),
        ),
        None => false,
    }
}

/// The text, or another where there is none.
pub open spec fn or_else(s: Option<Seq<char>>, other: Seq<char>) -> Seq<char> {
    match s {
        Some(s) => s,
        None => other,
    }
}

fn text_or(s: &Option<String>, other: &str) -> (r: String)
    ensures
        r@ == or_else(crate::text::opt_view(*s), other@),
{
    match s {
        Some(s) => s.clone(),
        None => other.to_owned(),
    }
}

/// The line of an event in the log, or `None` for one that comes too often or
/// tells the user nothing. `v6` is how the event's address is written, where
/// it is a V6 one.
pub open spec fn description(
    e: FrontendEventView,
    v6: Seq<char>,
) -> Option<(LogCategory, Seq<char>)> {
    match e {
        FrontendEventView::OperationMode(mode) => Some(
            (LogCategory::Connections, "operation mode: "@ + mode_name(mode)),
        ),
        FrontendEventView::Error(e) => Some((LogCategory::Errors, "error: "@ + e)),
        FrontendEventView::AudioError { addr: Some(a), message } => Some(
            (LogCategory::Errors, "audio error ("@ + addr_text(a, v6) + "): "@ + message),
        ),
        FrontendEventView::AudioError { addr: None, message } => Some(
            (LogCategory::Errors, "audio error: "@ + message),
        ),
        FrontendEventView::AudioStatus { send, receive, bitrate, buffer_ms, .. } => Some(
            (
                LogCategory::Audio,
                "audio status: send="@ + bool_view(send) + " receive="@ + bool_view(receive)
                    + " bitrate="@ + decimal(bitrate as nat) + " buffer="@ + decimal(
                    buffer_ms as nat,
                ) + "ms"@,
            ),
        ),
        FrontendEventView::AudioDevices { capture, playback } => Some(
            (
                LogCategory::Audio,
                "audio devices: "@ + decimal(capture.len()) + " capture, "@ + decimal(
                    playback.len(),
                ) + " playback"@,
            ),
        ),
        FrontendEventView::AudioStream { addr, active, .. } => Some(
            (
                LogCategory::Audio,
                "audio stream "@ + addr_text(addr, v6) + ": "@ + if active {
                    "active"@
                } else {
                    "inactive"@
                },
            ),
        ),
        FrontendEventView::Created(_, config, _) => Some(
            (LogCategory::Connections, "client created: "@ + or_else(config.hostname, "?"@)),
        ),
        FrontendEventView::ConnectionTested { error: Some(e), .. } => Some(
            (LogCategory::Errors, "connection test failed: "@ + e),
        ),
        FrontendEventView::ConnectionTested { error: None, .. } => Some(
            (LogCategory::Connections, "connection test succeeded"@),
        ),
        FrontendEventView::Deleted(h) => Some(
            (LogCategory::Connections, "client deleted: handle "@ + decimal(h as nat)),
        ),
        FrontendEventView::State(_, _, _) => None,
        FrontendEventView::NoSuchClient(h) => Some(
            (LogCategory::Errors, "no such client: handle "@ + decimal(h as nat)),
        ),
        FrontendEventView::PortChanged(port, Some(m)) => Some(
            (
                LogCategory::Connections,
                "port change to "@ + decimal(port as nat) + " failed: "@ + m,
            ),
        ),
        FrontendEventView::PortChanged(port, None) => Some(
            (LogCategory::Connections, "listening on port "@ + decimal(port as nat)),
        ),
        FrontendEventView::Enumerate(clients) => Some(
            (LogCategory::Connections, "enumerated "@ + decimal(clients.len()) + " client(s)"@),
        ),
        FrontendEventView::CaptureStatus(s) => Some(
            (LogCategory::Connections, "capture status: "@ + status_name(s)),
        ),
        FrontendEventView::EmulationStatus(s) => Some(
            (LogCategory::Connections, "emulation status: "@ + status_name(s)),
        ),
        FrontendEventView::AuthorizedUpdated(keys) => Some(
            (
                LogCategory::Connections,
                "authorized keys updated: "@ + decimal(keys.len()) + " key(s)"@,
            ),
        ),
        FrontendEventView::PublicKeyFingerprint(_) => None,
        FrontendEventView::DeviceConnected { addr, .. } => Some(
            (LogCategory::Connections, "device connected: "@ + addr_text(addr, v6)),
        ),
        FrontendEventView::DeviceEntered { addr, pos, .. } => Some(
            (
                LogCategory::Connections,
                "device entered ("@ + position_text(pos) + "): "@ + addr_text(addr, v6),
            ),
        ),
        FrontendEventView::IncomingDisconnected(addr) => Some(
            (LogCategory::Connections, "incoming disconnected: "@ + addr_text(addr, v6)),
        ),
        FrontendEventView::ConnectionAttempt { fingerprint } => Some(
            (
                LogCategory::Connections,
                "connection attempt, needs authorization: "@ + fingerprint,
            ),
        ),
        FrontendEventView::ServerEndpoint { hostname, port, .. } => Some(
            (
                LogCategory::Connections,
                "server endpoint: "@ + or_else(hostname, "-"@) + ":"@ + decimal(port as nat),
            ),
        ),
    }
}

/// A description, as a value.
pub open spec fn description_view(d: Option<(LogCategory, String)>) -> Option<
    (LogCategory, Seq<char>),
> {
    match d {
        Some((c, s)) => Some((c, s@)),
        None => None,
    }
}

/// Joins a text and a number.
fn with_number(a: &str, n: u64) -> (s: String)
    ensures
        s@ == a@ + decimal(n as nat),
{
    concat2(a, decimal_text(n).as_str())
}

/// The line of an event in the log. `v6` is how its address is written, where
/// it is a V6 one.
pub fn describe(event: &FrontendEvent, v6: &str) -> (d: Option<(LogCategory, String)>)
    ensures
        description_view(d) == description(event@, v6@),
{
    let described = match event {
        FrontendEvent::OperationMode(mode) => (
            LogCategory::Connections,
            concat2("operation mode: ", mode.name()),
        ),
        FrontendEvent::Error(e) => (LogCategory::Errors, concat2("error: ", e.as_str())),
        FrontendEvent::AudioError { addr: of, message } => match of {
            Some(a) => {
                let mut s = concat3("audio error (", addr_string(*a, v6).as_str(), "): ");
                s.append(message.as_str());
                (LogCategory::Errors, s)
            },
            None => (LogCategory::Errors, concat2("audio error: ", message.as_str())),
        },
        FrontendEvent::AudioStatus { send, receive, bitrate, buffer_ms, .. } => {
            let mut s = concat2("audio status: send=", bool_text(*send));
            s.append(" receive=");
            s.append(bool_text(*receive));
            s.append(" bitrate=");
            s.append(decimal_text(*bitrate as u64).as_str());
            s.append(" buffer=");
            s.append(decimal_text(*buffer_ms as u64).as_str());
            s.append("ms");
            (LogCategory::Audio, s)
        },
        FrontendEvent::AudioDevices { capture, playback } => {
            let mut s = with_number("audio devices: ", capture.len() as u64);
            s.append(" capture, ");
            s.append(decimal_text(playback.len() as u64).as_str());
            s.append(" playback");
            (LogCategory::Audio, s)
        },
        FrontendEvent::AudioStream { addr, active, .. } => {
            let mut s = concat3("audio stream ", addr_string(*addr, v6).as_str(), ": ");
            s.append(
                if *active {
                    "active"
                } else {
                    "inactive"
                },
            );
            (LogCategory::Audio, s)
        },
        FrontendEvent::Created(_, config, _) => (
            LogCategory::Connections,
            concat2("client created: ", text_or(&config.hostname, "?").as_str()),
        ),
        FrontendEvent::ConnectionTested { error, .. } => match error {
            Some(error) => (
                LogCategory::Errors,
                concat2("connection test failed: ", error.as_str()),
            ),
            None => (LogCategory::Connections, "connection test succeeded".to_owned()),
        },
        FrontendEvent::Deleted(handle) => (
            LogCategory::Connections,
            with_number("client deleted: handle ", *handle),
        ),
        FrontendEvent::State(_, _, _) => return None,
        FrontendEvent::NoSuchClient(handle) => (
            LogCategory::Errors,
            with_number("no such client: handle ", *handle),
        ),
        FrontendEvent::PortChanged(port, msg) => match msg {
            Some(m) => {
                let mut s = with_number("port change to ", *port as u64);
                s.append(" failed: ");
                s.append(m.as_str());
                (LogCategory::Connections, s)
            },
            None => (LogCategory::Connections, with_number("listening on port ", *port as u64)),
        },
        FrontendEvent::Enumerate(clients) => {
            let mut s = with_number("enumerated ", clients.len() as u64);
            s.append(" client(s)");
            (LogCategory::Connections, s)
        },
        FrontendEvent::CaptureStatus(status) => (
            LogCategory::Connections,
            concat2("capture status: ", status_str(*status)),
        ),
        FrontendEvent::EmulationStatus(status) => (
            LogCategory::Connections,
            concat2("emulation status: ", status_str(*status)),
        ),
        FrontendEvent::AuthorizedUpdated(keys) => {
            let mut s = with_number("authorized keys updated: ", keys.len() as u64);
            s.append(" key(s)");
            assert(crate::ipc::key_views(keys@).dom() =~= keys@.dom());
            (LogCategory::Connections, s)
        },
        FrontendEvent::PublicKeyFingerprint(_) => return None,
        FrontendEvent::DeviceConnected { addr, .. } => (
            LogCategory::Connections,
            concat2("device connected: ", addr_string(*addr, v6).as_str()),
        ),
        FrontendEvent::DeviceEntered { addr, pos, .. } => {
            let mut s = concat3("device entered (", pos.as_str(), "): ");
            s.append(addr_string(*addr, v6).as_str());
            (LogCategory::Connections, s)
        },
        FrontendEvent::IncomingDisconnected(addr) => (
            LogCategory::Connections,
            concat2("incoming disconnected: ", addr_string(*addr, v6).as_str()),
        ),
        FrontendEvent::ConnectionAttempt { fingerprint } => (
            LogCategory::Connections,
            concat2("connection attempt, needs authorization: ", fingerprint.as_str()),
        ),
        FrontendEvent::ServerEndpoint { hostname, port, .. } => {
            let mut s = concat3("server endpoint: ", text_or(hostname, "-").as_str(), ":");
            s.append(decimal_text(*port as u64).as_str());
            (LogCategory::Connections, s)
        },
    };
    Some(described)
}

/// The tag of a category.
pub open spec fn tag(c: LogCategory) -> Seq<char> {
    match c {
        LogCategory::Connections => "conn"@,
        LogCategory::Audio => "audio"@,
        LogCategory::Errors => "error"@,
    }
}

/// A line of the log.
pub open spec fn line(ts: Seq<char>, c: LogCategory, message: Seq<char>) -> Seq<char> {
    ts + "  ["@ + tag(c) + "]  "@ + message
}

/// Whether a filter lets a category through. No filter lets all through.
pub open spec fn passes(filter: Option<LogCategory>, c: LogCategory) -> bool {
    filter is None || filter == Some(c)
}

fn passes_filter(filter: Option<LogCategory>, c: LogCategory) -> (b: bool)
    ensures
        b == passes(filter, c),
{
    match filter {
        None => true,
        Some(f) => f == c,
    }
}

/// An entry of the log.
#[derive(Debug)]
struct LogEntry {
    category: LogCategory,
    text: String,
    visible: bool,
}

/// An entry of the log, as a value.
pub struct LogEntryView {
    pub category: LogCategory,
    pub text: Seq<char>,
    pub visible: bool,
}

impl View for LogEntry {
    type V = LogEntryView;

    closed spec fn view(&self) -> LogEntryView {
        LogEntryView { category: self.category, text: self.text@, visible: self.visible }
    }
}

/// The log.
pub struct LogView {
    pub entries: Seq<LogEntryView>,
    pub filter: Option<LogCategory>,
}

impl LogView {
    /// Only the latest entries are kept, and just those show that the filter
    /// lets through.
    pub open spec fn wf(self) -> bool {
        &&& self.entries.len() <= MAX_LOG_ENTRIES
        &&& forall|i: int|
            0 <= i < self.entries.len() ==> (#[trigger] self.entries[i]).visible == passes(
                self.filter,
                self.entries[i].category,
            )
    }

    /// With one more entry.
    pub open spec fn append(self, ts: Seq<char>, c: LogCategory, message: Seq<char>) -> LogView {
        let all = self.entries.push(
            LogEntryView {
                category: c,
                text: line(ts, c, message),
                visible: passes(self.filter, c),
            },
        );
        LogView {
            entries: if all.len() > MAX_LOG_ENTRIES {
                all.skip(1)
            } else {
                all
            },
            ..self
        }
    }

    /// With another filter.
    pub open spec fn filtered(self, filter: Option<LogCategory>) -> LogView {
        LogView {
            entries: self.entries.map_values(
                |e: LogEntryView| LogEntryView { visible: passes(filter, e.category), ..e },
            ),
            filter,
        }
    }
}

/// The texts of the entries that show, in order.
pub open spec fn visible_texts(entries: Seq<LogEntryView>) -> Seq<Seq<char>>
    decreases entries.len(),
{
    if entries.len() == 0 {
        seq![]
    } else if entries.last().visible {
        visible_texts(entries.drop_last()).push(entries.last().text)
    } else {
        visible_texts(entries.drop_last())
    }
}

/// The state of the log page.
pub struct LogState {
    entries: Vec<LogEntry>,
    filter: Option<LogCategory>,
}

/// The entries of a list, as values.
closed spec fn log_views(entries: Seq<LogEntry>) -> Seq<LogEntryView> {
    entries.map_values(|e: LogEntry| e@)
}

impl View for LogState {
    type V = LogView;

    closed spec fn view(&self) -> LogView {
        LogView { entries: log_views(self.entries@), filter: self.filter }
    }
}

impl LogState {
    /// An empty log without a filter.
    pub fn new() -> (l: LogState)
        ensures
            l@ == (LogView { entries: seq![], filter: None }),
            l@.wf(),
    {
        let l = LogState { entries: Vec::new(), filter: None };
        assert(l@.entries =~= seq![]);
        l
    }

    /// Logs an event. Tells whether the first entry had to go for it.
    pub fn log_event(&mut self, event: &FrontendEvent, v6: &str, ts: &str) -> (dropped: bool)
        ensures
            final(self)@ == (match description(event@, v6@) {
                Some((c, m)) => old(self)@.append(ts@, c, m),
                None => old(self)@,
            }),
            dropped == (description(event@, v6@) is Some && old(self)@.entries.len()
                >= MAX_LOG_ENTRIES),
    {
        match describe(event, v6) {
            Some((category, message)) => self.append(category, message.as_str(), ts),
            None => false,
        }
    }

    /// Adds an entry. Tells whether the first one had to go for it.
    pub fn append(&mut self, category: LogCategory, message: &str, ts: &str) -> (dropped: bool)
        ensures
            final(self)@ == old(self)@.append(ts@, category, message@),
            dropped == (old(self)@.entries.len() >= MAX_LOG_ENTRIES),
    {
        let tag = match category {
            LogCategory::Connections => "conn",
            LogCategory::Audio => "audio",
            LogCategory::Errors => "error",
        };
        let mut text = concat3(ts, "  [", tag);
        text.append("]  ");
        text.append(message);
        let visible: bool = passes_filter(self.filter, category);
        let entry = LogEntry { category, text, visible };
        let ghost ev = entry@;
        self.entries.push(entry);
        let ghost all = old(self)@.entries.push(ev);
        assert(self@.entries =~= all);
        if self.entries.len() > MAX_LOG_ENTRIES {
            let _ = self.entries.remove(0);
            assert(self@.entries =~= all.skip(1));
            true
        } else {
            false
        }
    }

    /// Shows only what a filter lets through.
    pub fn apply_filter(&mut self, filter: Option<LogCategory>)
        ensures
            final(self)@ == old(self)@.filtered(filter),
    {
        self.filter = filter;
        let mut shown: Vec<LogEntry> = Vec::new();
        let ghost want = old(self)@.filtered(filter).entries;
        let mut i: usize = 0;
        while i < self.entries.len()
            invariant
                i <= self.entries@.len(),
                self.entries == old(self).entries,
                self.filter == filter,
                want == old(self)@.filtered(filter).entries,
                log_views(shown@) =~= want.take(i as int),
            decreases self.entries@.len() - i,
        {
            let e = &self.entries[i];
            let ghost before = log_views(shown@);
            let one = LogEntry {
                category: e.category,
                text: e.text.clone(),
                visible: passes_filter(filter, e.category),
            };
            let ghost ov = one@;
            shown.push(one);
            assert(log_views(shown@) =~= before.push(ov));
            i = i + 1;
        }
        self.entries = shown;
        assert(self@.entries =~= want);
    }

    /// The lines that show, one below the other.
    pub fn copy_visible(&self) -> (s: String)
        ensures
            s@ == joined(visible_texts(self@.entries), "\n"@),
    {
        let mut texts: Vec<String> = Vec::new();
        let ghost all = self@.entries;
        let mut i: usize = 0;
        assert(crate::text::views(texts@) =~= visible_texts(all.take(0)));
        while i < self.entries.len()
            invariant
                i <= self.entries@.len(),
                all == self@.entries,
                crate::text::views(texts@) == visible_texts(all.take(i as int)),
            decreases self.entries@.len() - i,
        {
            assert(all.take(i + 1).drop_last() =~= all.take(i as int));
            let ghost before = crate::text::views(texts@);
            if self.entries[i].visible {
                texts.push(self.entries[i].text.clone());
                assert(crate::text::views(texts@) =~= before.push(all[i as int].text));
            }
            i = i + 1;
        }
        assert(all.take(i as int) =~= all);
        join(&texts, "\n")
    }

    /// Number of entries.
    pub fn len(&self) -> (n: usize)
        ensures
            n == self@.entries.len(),
    {
        self.entries.len()
    }

    /// The text of an entry, whether it shows, and whether it is an error.
    pub fn entry(&self, i: usize) -> (e: (&str, bool, bool))
        requires
            i < self@.entries.len(),
        ensures
            e.0@ == self@.entries[i as int].text,
            e.1 == self@.entries[i as int].visible,
            e.2 == (self@.entries[i as int].category == LogCategory::Errors),
    {
        let e = &self.entries[i];
        (e.text.as_str(), e.visible, e.category == LogCategory::Errors)
    }

    /// Drops all entries.
    pub fn clear(&mut self)
        ensures
            final(self)@ == (LogView { entries: seq![], ..old(self)@ }),
    {
        self.entries = Vec::new();
        assert(self@.entries =~= seq![]);
    }
}

/// Whatever is logged and filtered, only the latest entries are kept, and
/// just those show that the filter lets through.
pub proof fn lemma_log_stays_in_order(
    v: LogView,
    ts: Seq<char>,
    c: LogCategory,
    message: Seq<char>,
    filter: Option<LogCategory>,
)
    requires
        v.wf(),
    ensures
        v.append(ts, c, message).wf(),
        v.filtered(filter).wf(),
        v.append(ts, c, message).entries.last().text == line(ts, c, message),
{
}

/// Lifting the filter brings back every entry that was logged under it.
pub proof fn lemma_lifting_the_filter_shows_all(v: LogView, filter: Option<LogCategory>, i: int)
    requires
        0 <= i < v.entries.len(),
    ensures
        v.filtered(filter).filtered(None).entries[i].visible,
        v.filtered(filter).filtered(None).entries[i].text == v.entries[i].text,
{
}

} // verus!
