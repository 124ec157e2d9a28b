//! The rows of the window's lists.

pub mod laws;

use crate::ipc::{position_text, ClientConfig, ClientHandle, ClientState, Position};
use crate::net::{addr_string, addr_text, v4_text, SocketAddr};
use crate::text::{concat2, concat3, decimal, decimal_text, join, joined, opt_view, same, views};
use vstd::prelude::*;
use vstd::string::StrSliceExecFns;
use vstd::utf8::{decode_utf8, valid_utf8};

verus! {

/// Two addresses that are written the same: they differ at most in the flow
/// information, which is not written.
pub open spec fn written_same(a: SocketAddr, b: SocketAddr) -> bool {
    match (a, b) {
        (SocketAddr::V4 { ip: i, port: p }, SocketAddr::V4 { ip: j, port: q }) => i == j && p == q,
        (
            SocketAddr::V6 { ip: i, port: p, scope_id: s, .. },
            SocketAddr::V6 { ip: j, port: q, scope_id: t, .. },
        ) => i == j && p == q && s == t,
        _ => false,
    }
}

/// Whether two addresses are written the same.
pub fn same_text_addr(a: SocketAddr, b: SocketAddr) -> (r: bool)
    ensures
        r == written_same(a, b),
{
    match (a, b) {
        (SocketAddr::V4 { ip: i, port: p }, SocketAddr::V4 { ip: j, port: q }) => i == j && p == q,
        (
            SocketAddr::V6 { ip: i, port: p, scope_id: s, .. },
            SocketAddr::V6 { ip: j, port: q, scope_id: t, .. },
        ) => i == j && p == q && s == t,
        _ => false,
    }
}

/// The row of a client, as a value.
pub struct ClientRowView {
    pub handle: ClientHandle,
    pub hostname: Option<Seq<char>>,
    pub port: u16,
    pub position: Position,
    pub active: bool,
    pub active_addr: Option<SocketAddr>,
    pub audio_active: bool,
    pub audio_latency_ms: Option<u32>,
}

/// The row of a client.
#[derive(Debug)]
pub struct ClientRowModel {
    handle: ClientHandle,
    hostname: Option<String>,
    port: u16,
    position: Position,
    active: bool,
    active_addr: Option<SocketAddr>,
    audio_active: bool,
    audio_latency_ms: Option<u32>,
}

impl View for ClientRowModel {
    type V = ClientRowView;

    closed spec fn view(&self) -> ClientRowView {
        ClientRowView {
            handle: self.handle,
            hostname: opt_view(self.hostname),
            port: self.port,
            position: self.position,
            active: self.active,
            active_addr: self.active_addr,
            audio_active: self.audio_active,
            audio_latency_ms: self.audio_latency_ms,
        }
    }
}

/// What a client's row is told.
#[derive(Debug)]
pub enum ClientRowInput {
    SetConfig(ClientConfig),
    SetState(ClientState),
    SetAudioStats { active: bool, latency_ms: Option<u32> },
    SetPosition(Position),
}

impl ClientRowView {
    /// A new row.
    pub open spec fn init(
        handle: ClientHandle,
        config: crate::ipc::ConfigView,
        state: crate::ipc::StateView,
    ) -> ClientRowView {
        ClientRowView {
            handle,
            hostname: config.hostname,
            port: config.port,
            position: config.pos,
            active: state.active,
            active_addr: state.active_addr,
            audio_active: false,
            audio_latency_ms: None,
        }
    }

    /// The row once it was told something.
    pub open spec fn update(self, m: ClientRowInput) -> ClientRowView {
        match m {
            ClientRowInput::SetConfig(c) => self.set_config(c@),
            ClientRowInput::SetState(s) => self.set_state(s@),
            ClientRowInput::SetAudioStats { active, latency_ms } => ClientRowView {
                audio_active: active,
                audio_latency_ms: latency_ms,
                ..self
            },
            ClientRowInput::SetPosition(position) => ClientRowView { position, ..self },
        }
    }

    /// With another configuration.
    pub open spec fn set_config(self, c: crate::ipc::ConfigView) -> ClientRowView {
        ClientRowView { hostname: c.hostname, port: c.port, position: c.pos, ..self }
    }

    /// With another state.
    pub open spec fn set_state(self, s: crate::ipc::StateView) -> ClientRowView {
        ClientRowView { active: s.active, active_addr: s.active_addr, ..self }
    }

    /// The parts of the line below the title: where the client is connected
    /// from, how far its audio lags, that the connection is encrypted, and
    /// that it sends audio. `ip` is how the address is written.
    pub open spec fn subtitle_parts(self, ip: Seq<char>) -> Seq<Seq<char>> {
        let from = seq![ip];
        let lag = match self.audio_latency_ms {
            Some(ms) if self.audio_active => seq!["latency "@ + decimal(ms as nat) + " ms"@],
            _ => seq![],
        };
        let audio = if self.audio_active {
            seq!["sending audio"@]
        } else {
            seq![]
        };
        from + lag + seq!["TLS active"@] + audio
    }
}

/// What stands in front of the last colon of a text, or all of it.
pub open spec fn before_last_colon(s: Seq<char>) -> Seq<char>
    decreases s.len(),
{
    match last_colon(s) {
        Some(i) => s.take(i),
        None => s,
    }
}

/// The place of the last colon.
pub open spec fn last_colon(s: Seq<char>) -> Option<int>
    decreases s.len(),
{
    if s.len() == 0 {
        None
    } else if s.last() == ':' {
        Some(s.len() - 1)
    } else {
        last_colon(s.drop_last())
    }
}

fn ip_part(s: &str) -> (r: String)
    ensures
        r@ == before_last_colon(s@),
{
    let n: usize = s.unicode_len();
    let mut i: usize = n;
    assert(s@.take(n as int) =~= s@);
    while i > 0
        invariant
            i <= n,
            n == s@.len(),
            last_colon(s@) == last_colon(s@.take(i as int)),
        decreases i,
    {
        assert(s@.take(i as int).last() == s@[i - 1]);
        assert(s@.take(i as int).drop_last() =~= s@.take(i - 1));
        if s.get_char(i - 1) == ':' {
            assert(s@.subrange(0, i - 1) =~= s@.take(i - 1));
            return s.substring_char(0, i - 1).to_owned();
        }
        i = i - 1;
    }
    s.to_owned()
}

/// Digits are no colons.
proof fn lemma_decimal_has_no_colon(n: nat)
    ensures
        last_colon(decimal(n)) is None,
    decreases n,
{
    reveal_with_fuel(last_colon, 2);
    if n >= 10 {
        lemma_decimal_has_no_colon(n / 10);
        assert(decimal(n).drop_last() =~= decimal(n / 10));
    } else {
        assert(decimal(n).drop_last() =~= seq![]);
    }
}

/// A text without a colon leaves the last colon before it the last one.
proof fn lemma_last_colon_before(a: Seq<char>, b: Seq<char>)
    requires
        last_colon(b) is None,
    ensures
        last_colon(a + b) == last_colon(a),
    decreases b.len(),
{
    if b.len() == 0 {
        assert(a + b =~= a);
    } else {
        assert((a + b).drop_last() =~= a + b.drop_last());
        assert((a + b).last() == b.last());
        lemma_last_colon_before(a, b.drop_last());
    }
}

/// Of a V4 address the row shows the dotted bytes, without the port.
pub proof fn lemma_row_shows_the_v4_address(ip: u32, port: u16, v6: Seq<char>)
    ensures
        before_last_colon(addr_text(SocketAddr::V4 { ip, port }, v6)) == v4_text(ip),
{
    reveal_strlit(":");
    let a = v4_text(ip) + ":"@;
    lemma_decimal_has_no_colon(port as nat);
    lemma_last_colon_before(a, decimal(port as nat));
    assert(a.last() == ':');
    assert((a + decimal(port as nat)).take(v4_text(ip).len() as int) =~= v4_text(ip));
}

/// The title of a row whose client has no host name.
pub open spec fn no_hostname() -> Seq<char> {
    "<span font_style=\"italic\" font_weight=\"light\" foreground=\"darkgrey\">no hostname!</span>"@
}

impl ClientRowModel {
    /// A new row.
    pub fn new(handle: ClientHandle, config: ClientConfig, state: ClientState) -> (r: ClientRowModel)
        ensures
            r@ == ClientRowView::init(handle, config@, state@),
    {
        ClientRowModel {
            handle,
            hostname: config.hostname,
            port: config.port,
            position: config.pos,
            active: state.active,
            active_addr: state.active_addr,
            audio_active: false,
            audio_latency_ms: None,
        }
    }

    /// Tells the row something.
    pub fn update(&mut self, message: ClientRowInput)
        ensures
            final(self)@ == old(self)@.update(message),
    {
        match message {
            ClientRowInput::SetConfig(config) => {
                self.hostname = config.hostname;
                self.port = config.port;
                self.position = config.pos;
            },
            ClientRowInput::SetState(state) => {
                self.active = state.active;
                self.active_addr = state.active_addr;
            },
            ClientRowInput::SetAudioStats { active, latency_ms } => {
                self.audio_active = active;
                self.audio_latency_ms = latency_ms;
            },
            ClientRowInput::SetPosition(position) => {
                self.position = position;
            },
        }
    }

    /// The client's handle.
    pub fn handle(&self) -> (h: ClientHandle)
        ensures
            h == self@.handle,
    {
        self.handle
    }

    /// Whether the client's audio is received.
    pub fn audio_active(&self) -> (b: bool)
        ensures
            b == self@.audio_active,
    {
        self.audio_active
    }

    /// The client's edge.
    pub fn position(&self) -> (p: Position)
        ensures
            p == self@.position,
    {
        self.position
    }

    /// Whether the client is active.
    pub fn active(&self) -> (b: bool)
        ensures
            b == self@.active,
    {
        self.active
    }

    /// The client's host name.
    pub fn hostname(&self) -> (n: Option<&str>)
        ensures
            match n {
                Some(n) => self@.hostname == Some(n@),
                None => self@.hostname is None,
            },
    {
        match &self.hostname {
            Some(n) => Some(n.as_str()),
            None => None,
        }
    }

    /// The client's port.
    pub fn port(&self) -> (p: u16)
        ensures
            p == self@.port,
    {
        self.port
    }

    /// Where the client's connection comes from.
    pub fn active_addr(&self) -> (a: Option<SocketAddr>)
        ensures
            a == self@.active_addr,
    {
        self.active_addr
    }

    /// The row's title: the host name, or a placeholder.
    pub fn display_title(&self) -> (s: String)
        ensures
            s@ == (match self@.hostname {
                Some(n) => n,
                None => no_hostname(),
            }),
    {
        match &self.hostname {
            Some(n) => n.clone(),
            None =>
                "<span font_style=\"italic\" font_weight=\"light\" foreground=\"darkgrey\">no hostname!</span>".to_owned(),
        }
    }

    /// How the port shows in its entry.
    pub fn port_text(&self) -> (s: String)
        ensures
            s@ == super::forms::port_text(self@.port),
    {
        super::forms::port_entry_text(self.port)
    }

    /// Whether the client is connected.
    pub fn connected(&self) -> (b: bool)
        ensures
            b == (self@.active_addr is Some),
    {
        self.active_addr.is_some()
    }

    /// The line below the title. `v6` is how the connection's address is
    /// written, where it is a V6 one.
    pub fn connection_subtitle(&self, v6: &str) -> (s: String)
        ensures
            s@ == (match self@.active_addr {
                None => seq![],
                Some(a) => joined(
                    self@.subtitle_parts(before_last_colon(addr_text(a, v6@))),
                    " · "@,
                ),
            }),
    {
        let addr = match self.active_addr {
            None => {
                let s = String::new();
                assert(s@ =~= seq![]);
                return s;
            },
            Some(a) => addr_string(a, v6),
        };
        let mut parts: Vec<String> = Vec::new();
        parts.push(ip_part(addr.as_str()));
        if self.audio_active {
            if let Some(ms) = self.audio_latency_ms {
                parts.push(concat3("latency ", decimal_text(ms as u64).as_str(), " ms"));
            }
        }
        parts.push("TLS active".to_owned());
        if self.audio_active {
            parts.push("sending audio".to_owned());
        }
        assert(views(parts@) =~= self@.subtitle_parts(before_last_colon(addr@)));
        join(&parts, " · ")
    }
}

/// `std::str::from_utf8`: the text that bytes hold, if they are UTF-8.
#[verifier::external_body]
fn utf8_text(bytes: &[u8]) -> (r: Option<String>)
    ensures
        match r {
            Some(s) => valid_utf8(bytes@) && s@ == decode_utf8(bytes@),
            None => !valid_utf8(bytes@),
        },
{
    match std::str::from_utf8(bytes) {
        Ok(s) => Some(s.to_owned()),
        Err(_) => None,
    }
}

/// The build that a peer greeted with, as text. One that is no text counts as
/// unknown.
pub fn peer_commit_to_string(commit: Option<[u8; 8]>) -> (r: Option<String>)
    ensures
        opt_view(r) == (match commit {
            Some(c) if valid_utf8(c@) => Some(decode_utf8(c@)),
            _ => None,
        }),
{
    match commit {
        Some(c) => utf8_text(c.as_slice()),
        None => None,
    }
}

/// The line that compares a peer's build with this one.
pub open spec fn version_line(peer: Option<Seq<char>>, local: Seq<char>) -> Seq<char> {
    match peer {
        None => "Peer version: unknown · Ours: "@ + local,
        Some(p) => if p == local {
            "Peer version: "@ + p + " · matched"@
        } else {
            "Peer version: "@ + p + " · Ours: "@ + local
        },
    }
}

/// The line that compares a peer's build with this one. A build that is
/// unknown or another is shown and hinders nothing.
pub fn version_subtitle(peer: &Option<String>, local: &str) -> (s: String)
    ensures
        s@ == version_line(opt_view(*peer), local@),
{
    match peer {
        None => concat2("Peer version: unknown · Ours: ", local),
        Some(p) => {
            if same(p.as_str(), local) {
                concat3("Peer version: ", p.as_str(), " · matched")
            } else {
                let mut s = concat3("Peer version: ", p.as_str(), " · Ours: ");
                s.append(local);
                s
            }
        },
    }
}

/// The style class of that line.
pub fn version_css_class(peer: &Option<String>, local: &str) -> (s: &'static str)
    ensures
        s@ == (match opt_view(*peer) {
            None => "peer-unknown"@,
            Some(p) => if p == local@ {
                "peer-match"@
            } else {
                "peer-mismatch"@
            },
        }),
{
    match peer {
        None => "peer-unknown",
        Some(p) => {
            if same(p.as_str(), local) {
                "peer-match"
            } else {
                "peer-mismatch"
            }
        },
    }
}

/// What is said of a client's addresses, given how each is written.
pub fn dns_tooltip(ips: &Vec<String>) -> (s: String)
    ensures
        s@ == if ips@.len() == 0 {
            "no ip addresses associated with this client"@
        } else {
            joined(views(ips@), "\n"@)
        },
{
    if ips.len() == 0 {
        "no ip addresses associated with this client".to_owned()
    } else {
        join(ips, "\n")
    }
}

/// The style class of a client's name: whether it has addresses.
pub fn dns_css_class(ips: &Vec<String>) -> (s: &'static str)
    ensures
        s@ == if ips@.len() == 0 {
            "warning"@
        } else {
            "success"@
        },
{
    if ips.len() == 0 {
        "warning"
    } else {
        "success"
    }
}

/// The row of a device that entered this screen, as a value.
pub struct IncomingRowView {
    /// number by which the row is found again
    pub id: u64,
    pub addr: SocketAddr,
    pub position: Option<Position>,
    pub fingerprint: Seq<char>,
}

/// The row of a device that entered this screen.
#[derive(Debug)]
pub struct IncomingDeviceRowModel {
    id: u64,
    addr: SocketAddr,
    position: Option<Position>,
    fingerprint: String,
}

/// What a device's row is told.
#[derive(Debug)]
pub enum IncomingDeviceRowInput {
    Entered { position: Position, fingerprint: String },
}

impl View for IncomingDeviceRowModel {
    type V = IncomingRowView;

    closed spec fn view(&self) -> IncomingRowView {
        IncomingRowView {
            id: self.id,
            addr: self.addr,
            position: self.position,
            fingerprint: self.fingerprint@,
        }
    }
}

impl IncomingRowView {
    /// The line below the title.
    pub open spec fn subtitle(self) -> Seq<char> {
        match self.position {
            Some(p) => "Connected · "@ + position_text(p) + " · "@ + self.fingerprint,
            None => "Connected · "@ + self.fingerprint,
        }
    }
}

impl IncomingDeviceRowModel {
    /// A new row.
    pub fn new(id: u64, addr: SocketAddr, position: Option<Position>, fingerprint: String) -> (r:
        IncomingDeviceRowModel)
        ensures
            r@ == (IncomingRowView { id, addr, position, fingerprint: fingerprint@ }),
    {
        IncomingDeviceRowModel { id, addr, position, fingerprint }
    }

    /// The number by which the row is found again.
    pub fn id(&self) -> (n: u64)
        ensures
            n == self@.id,
    {
        self.id
    }

    /// Where the device is connected from.
    pub fn addr(&self) -> (a: SocketAddr)
        ensures
            a == self@.addr,
    {
        self.addr
    }

    /// Tells the row something.
    pub fn update(&mut self, message: IncomingDeviceRowInput)
        ensures
            final(self)@ == (match message {
                IncomingDeviceRowInput::Entered { position, fingerprint } => IncomingRowView {
                    position: Some(position),
                    fingerprint: fingerprint@,
                    ..old(self)@
                },
            }),
    {
        match message {
            IncomingDeviceRowInput::Entered { position, fingerprint } => {
                self.position = Some(position);
                self.fingerprint = fingerprint;
            },
        }
    }

    /// The line below the title.
    pub fn subtitle(&self) -> (s: String)
        ensures
            s@ == self@.subtitle(),
    {
        match self.position {
            Some(p) => {
                let mut s = concat3("Connected · ", p.as_str(), " · ");
                s.append(self.fingerprint.as_str());
                s
            },
            None => concat2("Connected · ", self.fingerprint.as_str()),
        }
    }
}

/// The row of a device that waits for a position, as a value.
pub struct ParkedRowView {
    pub fingerprint: Seq<char>,
    pub position: Position,
}

/// The row of a device that waits for a position.
#[derive(Debug)]
pub struct ParkedDeviceRowModel {
    fingerprint: String,
    position: Position,
}

/// What the row of a device that waits for a position is told.
#[derive(Clone, Copy, Debug, PartialEq, Eq, Structural)]
pub enum ParkedDeviceRowInput {
    SetPosition(Position),
}

impl View for ParkedDeviceRowModel {
    type V = ParkedRowView;

    closed spec fn view(&self) -> ParkedRowView {
        ParkedRowView { fingerprint: self.fingerprint@, position: self.position }
    }
}

impl ParkedDeviceRowModel {
    /// A new row. The right edge comes first, as everywhere in pairing.
    pub fn new(fingerprint: String) -> (r: ParkedDeviceRowModel)
        ensures
            r@ == (ParkedRowView { fingerprint: fingerprint@, position: Position::Right }),
    {
        ParkedDeviceRowModel { fingerprint, position: Position::Right }
    }

    /// The device's fingerprint.
    pub fn fingerprint(&self) -> (f: &str)
        ensures
            f@ == self@.fingerprint,
    {
        self.fingerprint.as_str()
    }

    /// The edge that is picked.
    pub fn position(&self) -> (p: Position)
        ensures
            p == self@.position,
    {
        self.position
    }

    /// Tells the row something.
    pub fn update(&mut self, message: ParkedDeviceRowInput)
        ensures
            final(self)@ == (match message {
                ParkedDeviceRowInput::SetPosition(position) => ParkedRowView {
                    position,
                    ..old(self)@
                },
            }),
    {
        match message {
            ParkedDeviceRowInput::SetPosition(position) => {
                self.position = position;
            },
        }
    }

    /// The line below the title.
    pub fn subtitle(&self) -> (s: String)
        ensures
            s@ == self@.fingerprint + " · waiting for a screen position"@,
    {
        concat2(self.fingerprint.as_str(), " · waiting for a screen position")
    }
}

/// The row of an audio stream.
#[derive(Clone, Copy, Debug, PartialEq, Eq, Structural)]
pub struct AudioStreamRowModel {
    /// number by which the row is found again
    pub id: u64,
    pub addr: SocketAddr,
    pub latency_ms: u32,
    pub packets_lost: u64,
    /// bit pattern of the single-precision level
    pub level: u32,
}

/// What an audio stream's row is told.
#[derive(Clone, Copy, Debug, PartialEq, Eq, Structural)]
pub enum AudioStreamRowInput {
    UpdateStats { latency_ms: u32, packets_lost: u64, level: u32 },
}

/// The row of an authorized device.
#[derive(Debug)]
pub struct KeyRowModel {
    description: String,
    fingerprint: String,
}

impl View for KeyRowModel {
    type V = (Seq<char>, Seq<char>);

    /// Description and fingerprint.
    closed spec fn view(&self) -> (Seq<char>, Seq<char>) {
        (self.description@, self.fingerprint@)
    }
}

impl KeyRowModel {
    /// A new row.
    pub fn new(description: String, fingerprint: String) -> (r: KeyRowModel)
        ensures
            r@ == (description@, fingerprint@),
    {
        KeyRowModel { description, fingerprint }
    }

    /// The device's description.
    pub fn description(&self) -> (s: &str)
        ensures
            s@ == self@.0,
    {
        self.description.as_str()
    }

    /// The device's fingerprint.
    pub fn fingerprint(&self) -> (s: &str)
        ensures
            s@ == self@.1,
    {
        self.fingerprint.as_str()
    }
}

impl AudioStreamRowModel {
    /// The row once it was told something.
    pub open spec fn updated(self, m: AudioStreamRowInput) -> AudioStreamRowModel {
        match m {
            AudioStreamRowInput::UpdateStats { latency_ms, packets_lost, level } =>
                AudioStreamRowModel { latency_ms, packets_lost, level, ..self },
        }
    }

    /// Tells the row something.
    pub fn update(&mut self, message: AudioStreamRowInput)
        ensures
            *final(self) == old(self).updated(message),
    {
        match message {
            AudioStreamRowInput::UpdateStats { latency_ms, packets_lost, level } => {
                self.latency_ms = latency_ms;
                self.packets_lost = packets_lost;
                self.level = level;
            },
        }
    }

    /// The line below the title.
    pub fn subtitle(&self) -> (s: String)
        ensures
            s@ == decimal(self.latency_ms as nat) + " ms · "@ + decimal(self.packets_lost as nat)
                + " lost"@,
    {
        let mut s = concat3(
            decimal_text(self.latency_ms as u64).as_str(),
            " ms · ",
            decimal_text(self.packets_lost).as_str(),
        );
        s.append(" lost");
        s
    }
}

} // verus!
