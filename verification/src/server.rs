//! The decisions of the server: the handler of one client connection
//! (password, registration, keep-alive, departure), the console commands,
//! and the connection writer's stop rule.
use vstd::prelude::*;
use vstd::string::StringExecFns;
use vstd::string::StringSliceAdditionalSpecFns;

use crate::clientdata::{saved, ClientData, ClientRecord, ClientRegistry, WriterChannel};
use crate::maps::is_key_order;
use crate::text::{contains, contains_text, dec, decimal, parse_u16, parse_unsigned, split_once, split_once_char, text_eq, trim, trim_text};

verus! {

/// How long a connected session waits between keep-alive rounds, in milliseconds.
pub const KEEP_ALIVE_MS: u128 = 10000;

/// Where the handling of one connection stands.
#[derive(Debug, Clone, Copy, PartialEq, Eq)]
pub enum AuthPhase {
    /// The password has been asked for.
    AwaitingPassword,
    /// The client's id has been asked for.
    AwaitingId,
    /// The client is registered under `id`; the next keep-alive round is due
    /// once more than `keep_alive_at` milliseconds have passed.
    Connected { id: u16, keep_alive_at: u128 },
    /// The handler has stopped.
    Finished,
}

/// What happens to a connection's handler.
#[derive(Debug)]
pub enum AuthEvent {
    /// A message arrived from the connection's reader.
    Received(String),
    /// The reader's channel is closed.
    ReaderClosed,
    /// No message arrived within the wait.
    Idle,
    /// This many milliseconds have passed since the client was registered.
    Tick(u128),
}

/// What the handler asks of the program.
#[derive(Debug, PartialEq, Eq)]
pub enum AuthAction {
    /// Queue a message for the connection's writer.
    Send(String),
    /// Write a text directly on the connection.
    Write(String),
    /// Shut the connection down in both directions.
    Shutdown,
    /// Send a message to every registered client (`ClientData::round_robin`).
    Broadcast(String),
}

/// An event as values.
pub enum AuthEventView {
    Received(Seq<char>),
    ReaderClosed,
    Idle,
    Tick(u128),
}

/// An action as values.
pub enum AuthActionView {
    Send(Seq<char>),
    Write(Seq<char>),
    Shutdown,
    Broadcast(Seq<char>),
}

impl View for AuthEvent {
    type V = AuthEventView;

    open spec fn view(&self) -> AuthEventView {
        match self {
            AuthEvent::Received(s) => AuthEventView::Received(s@),
            AuthEvent::ReaderClosed => AuthEventView::ReaderClosed,
            AuthEvent::Idle => AuthEventView::Idle,
            AuthEvent::Tick(t) => AuthEventView::Tick(*t),
        }
    }
}

impl View for AuthAction {
    type V = AuthActionView;

    open spec fn view(&self) -> AuthActionView {
        match self {
            AuthAction::Send(s) => AuthActionView::Send(s@),
            AuthAction::Write(s) => AuthActionView::Write(s@),
            AuthAction::Shutdown => AuthActionView::Shutdown,
            AuthAction::Broadcast(s) => AuthActionView::Broadcast(s@),
        }
    }
}

/// The actions of a list, as values.
pub open spec fn actions_view(v: Seq<AuthAction>) -> Seq<AuthActionView> {
    v.map_values(|a: AuthAction| a@)
}

/// The handler of one client connection.
pub struct AuthManager {
    phase: AuthPhase,
    password: String,
    peer: String,
    writer: WriterChannel,
}

/// A handler as values: its phase, the expected password, the peer address
/// and the number of the channel that feeds the connection's writer.
pub struct AuthManagerView {
    pub phase: AuthPhase,
    pub password: Seq<char>,
    pub peer: Seq<char>,
    pub channel: u64,
}

impl View for AuthManager {
    type V = AuthManagerView;

    closed spec fn view(&self) -> AuthManagerView {
        AuthManagerView {
            phase: self.phase,
            password: self.password@,
            peer: self.peer@,
            channel: self.writer@,
        }
    }
}

/// The outcome of one step: the next phase, the actions, the registry after it.
pub struct AuthStep {
    pub phase: AuthPhase,
    pub actions: Seq<AuthActionView>,
    pub registry: Map<u16, ClientRecord>,
}

/// The record saved for a newly registered client: id, the peer's address and
/// port, status `"active"`, the id text as CID, and the connection's writer channel.
pub open spec fn new_record(
    id: u16,
    ip: Seq<char>,
    port: Seq<char>,
    cid: Seq<char>,
    channel: u64,
) -> ClientRecord {
    ClientRecord { id, ip, status: "active"@, port, cid, channel }
}

/// The message written to a connection whose id is already registered,
/// before it is shut down.
pub open spec fn disconnect_text() -> Seq<char> {
    "999: shutdown"@
}

/// What the client's id message leads to, given the peer address `peer` and
/// the connection's writer channel `channel`.
pub open spec fn id_step(
    peer: Seq<char>,
    channel: u64,
    text: Seq<char>,
    m: Map<u16, ClientRecord>,
) -> AuthStep {
    match split_once(peer, ':') {
        None => AuthStep { phase: AuthPhase::Finished, actions: Seq::empty(), registry: m },
        Some((ip, port)) => match parse_unsigned(text, 0xffff) {
            None => AuthStep {
                phase: AuthPhase::Finished,
                actions: seq![
                    AuthActionView::Write("Invalid client ID format"@),
                    AuthActionView::Shutdown,
                ],
                registry: m,
            },
            Some(n) => if m.contains_key(n as u16) {
                AuthStep {
                    phase: AuthPhase::Finished,
                    actions: seq![
                        AuthActionView::Write(disconnect_text()),
                        AuthActionView::Shutdown,
                    ],
                    registry: m,
                }
            } else {
                AuthStep {
                    phase: AuthPhase::Connected { id: n as u16, keep_alive_at: KEEP_ALIVE_MS },
                    actions: seq![AuthActionView::Send("140: Connected"@)],
                    registry: saved(m, new_record(n as u16, ip, port, text, channel)),
                }
            },
        },
    }
}

/// Whether the handler can take `e` in phase `p`: the program gives up on
/// the connection (it panics) when the reader closes while the id is awaited.
pub open spec fn accepts(p: AuthPhase, e: AuthEventView) -> bool {
    &&& !(p is AwaitingId && e is ReaderClosed)
    &&& match (p, e) {
        (AuthPhase::Connected { .. }, AuthEventView::Tick(t)) => t <= u128::MAX - KEEP_ALIVE_MS,
        _ => true,
    }
}

/// One step of the handler: its next phase, its actions and the registry after it.
pub open spec fn auth_step(s: AuthManagerView, m: Map<u16, ClientRecord>, e: AuthEventView) -> AuthStep {
    match s.phase {
        AuthPhase::AwaitingPassword => match e {
            AuthEventView::Received(p) => if p == s.password {
                AuthStep {
                    phase: AuthPhase::AwaitingId,
                    actions: seq![AuthActionView::Send("120: qual o ID"@)],
                    registry: m,
                }
            } else {
                AuthStep {
                    phase: AuthPhase::Finished,
                    actions: seq![
                        AuthActionView::Write("Senha incorreta desconnecting client"@),
                        AuthActionView::Shutdown,
                    ],
                    registry: m,
                }
            },
            AuthEventView::ReaderClosed => AuthStep {
                phase: AuthPhase::AwaitingId,
                actions: seq![AuthActionView::Send("120: qual o ID"@)],
                registry: m,
            },
            _ => AuthStep { phase: s.phase, actions: Seq::empty(), registry: m },
        },
        AuthPhase::AwaitingId => match e {
            AuthEventView::Received(text) => id_step(s.peer, s.channel, text, m),
            _ => AuthStep { phase: s.phase, actions: Seq::empty(), registry: m },
        },
        AuthPhase::Connected { id, keep_alive_at } => match e {
            AuthEventView::Tick(t) => if t > keep_alive_at {
                AuthStep {
                    phase: AuthPhase::Connected { id, keep_alive_at: (KEEP_ALIVE_MS + t) as u128 },
                    actions: seq![AuthActionView::Broadcast("100: keep alive"@)],
                    registry: m,
                }
            } else {
                AuthStep { phase: s.phase, actions: Seq::empty(), registry: m }
            },
            AuthEventView::Received(msg) => AuthStep {
                phase: if contains(msg, "999:"@) {
                    AuthPhase::Finished
                } else {
                    s.phase
                },
                actions: Seq::empty(),
                registry: m.remove(id),
            },
            AuthEventView::ReaderClosed => AuthStep {
                phase: AuthPhase::Finished,
                actions: Seq::empty(),
                registry: m,
            },
            AuthEventView::Idle => AuthStep { phase: s.phase, actions: Seq::empty(), registry: m },
        },
        AuthPhase::Finished => AuthStep { phase: s.phase, actions: Seq::empty(), registry: m },
    }
}

impl AuthManager {
    /// A handler for a new connection from `peer`, whose writer is fed by
    /// `writer`; its first action asks for the password.
    pub fn start(password: String, peer: String, writer: WriterChannel) -> (r: (
        AuthManager,
        Vec<AuthAction>,
    ))
        ensures
            r.0@ == (AuthManagerView {
                phase: AuthPhase::AwaitingPassword,
                password: password@,
                peer: peer@,
                channel: writer@,
            }),
            actions_view(r.1@) == seq![AuthActionView::Send("110: qual a senha"@)],
    {
        let m = AuthManager { phase: AuthPhase::AwaitingPassword, password, peer, writer };
        let mut actions = Vec::new();
        actions.push(AuthAction::Send(String::from_str("110: qual a senha")));
        assert(actions_view(actions@) =~= seq![AuthActionView::Send("110: qual a senha"@)]);
        (m, actions)
    }

    /// The phase of the handler.
    pub fn phase(&self) -> (r: AuthPhase)
        ensures
            r == self@.phase,
    {
        self.phase
    }

    /// Whether the handler can take `event` (see `accepts`).
    pub fn can_take(&self, event: &AuthEvent) -> (r: bool)
        ensures
            r == accepts(self@.phase, event@),
    {
        match self.phase {
            AuthPhase::AwaitingId => match event {
                AuthEvent::ReaderClosed => false,
                _ => true,
            },
            AuthPhase::Connected { .. } => match event {
                AuthEvent::Tick(t) => *t <= u128::MAX - KEEP_ALIVE_MS,
                _ => true,
            },
            _ => true,
        }
    }

    /// Registers the client whose id message is `text`.
    fn register(&mut self, registry: &mut ClientRegistry, text: String) -> (r: Vec<AuthAction>)
        requires
            old(self)@.phase is AwaitingId,
        ensures
            final(self)@ == (AuthManagerView {
                phase: id_step(old(self)@.peer, old(self)@.channel, text@, old(registry)@).phase,
                ..old(self)@
            }),
            actions_view(r@) == id_step(old(self)@.peer, old(self)@.channel, text@, old(registry)@).actions,
            final(registry)@ == id_step(old(self)@.peer, old(self)@.channel, text@, old(registry)@).registry,
    {
        let mut actions: Vec<AuthAction> = Vec::new();
        let (ip, port) = match split_once_char(self.peer.as_str(), ':') {
            Some(parts) => parts,
            None => {
                self.phase = AuthPhase::Finished;
                assert(actions_view(actions@) =~= Seq::<AuthActionView>::empty());
                return actions;
            },
        };
        let id = match parse_u16(text.as_str()) {
            Some(id) => id,
            None => {
                self.phase = AuthPhase::Finished;
                actions.push(AuthAction::Write(String::from_str("Invalid client ID format")));
                actions.push(AuthAction::Shutdown);
                assert(actions_view(actions@) =~= seq![
                    AuthActionView::Write("Invalid client ID format"@),
                    AuthActionView::Shutdown,
                ]);
                return actions;
            },
        };
        match ClientData::find_client_by_id(registry, id) {
            Some(_) => {
                self.phase = AuthPhase::Finished;
                actions.push(AuthAction::Write(String::from_str("999: shutdown")));
                actions.push(AuthAction::Shutdown);
                assert(actions_view(actions@) =~= seq![
                    AuthActionView::Write(disconnect_text()),
                    AuthActionView::Shutdown,
                ]);
                actions
            },
            None => {
                let client = ClientData {
                    id,
                    ip,
                    status: String::from_str("active"),
                    port,
                    cid: text,
                    sender_tcp_writer: self.writer.duplicate(),
                };
                ClientData::save(registry, client);
                self.phase = AuthPhase::Connected { id, keep_alive_at: KEEP_ALIVE_MS };
                actions.push(AuthAction::Send(String::from_str("140: Connected")));
                assert(actions_view(actions@) =~= seq![AuthActionView::Send("140: Connected"@)]);
                actions
            },
        }
    }

    /// Takes one event: moves to the next phase, updates the registry, and
    /// gives the actions to perform, as `auth_step` describes; a keep-alive
    /// round is a `Broadcast` of `"100: keep alive"` for the program to perform.
    pub fn step(&mut self, registry: &mut ClientRegistry, event: AuthEvent) -> (r: Vec<AuthAction>)
        requires
            accepts(old(self)@.phase, event@),
        ensures
            final(self)@ == (AuthManagerView {
                phase: auth_step(old(self)@, old(registry)@, event@).phase,
                ..old(self)@
            }),
            actions_view(r@) == auth_step(old(self)@, old(registry)@, event@).actions,
            final(registry)@ == auth_step(old(self)@, old(registry)@, event@).registry,
    {
        let none: Vec<AuthAction> = Vec::new();
        assert(actions_view(none@) =~= Seq::<AuthActionView>::empty());
        match self.phase {
            AuthPhase::AwaitingPassword => match event {
                AuthEvent::Received(p) => {
                    let mut actions = Vec::new();
                    if p == self.password {
                        self.phase = AuthPhase::AwaitingId;
                        actions.push(AuthAction::Send(String::from_str("120: qual o ID")));
                        assert(actions_view(actions@) =~= seq![
                            AuthActionView::Send("120: qual o ID"@),
                        ]);
                    } else {
                        self.phase = AuthPhase::Finished;
                        actions.push(
                            AuthAction::Write(String::from_str("Senha incorreta desconnecting client")),
                        );
                        actions.push(AuthAction::Shutdown);
                        assert(actions_view(actions@) =~= seq![
                            AuthActionView::Write("Senha incorreta desconnecting client"@),
                            AuthActionView::Shutdown,
                        ]);
                    }
                    actions
                },
                AuthEvent::ReaderClosed => {
                    self.phase = AuthPhase::AwaitingId;
                    let mut actions = Vec::new();
                    actions.push(AuthAction::Send(String::from_str("120: qual o ID")));
                    assert(actions_view(actions@) =~= seq![AuthActionView::Send("120: qual o ID"@)]);
                    actions
                },
                _ => none,
            },
            AuthPhase::AwaitingId => match event {
                AuthEvent::Received(text) => self.register(registry, text),
                _ => none,
            },
            AuthPhase::Connected { id, keep_alive_at } => match event {
                AuthEvent::Tick(t) => {
                    if t > keep_alive_at {
                        self.phase = AuthPhase::Connected { id, keep_alive_at: KEEP_ALIVE_MS + t };
                        let mut actions = Vec::new();
                        actions.push(AuthAction::Broadcast(String::from_str("100: keep alive")));
                        assert(actions_view(actions@) =~= seq![
                            AuthActionView::Broadcast("100: keep alive"@),
                        ]);
                        actions
                    } else {
                        none
                    }
                },
                AuthEvent::Received(message) => {
                    let _ = ClientData::delete_client_by_id(registry, id);
                    if contains_text(message.as_str(), "999:") {
                        self.phase = AuthPhase::Finished;
                    }
                    none
                },
                AuthEvent::ReaderClosed => {
                    self.phase = AuthPhase::Finished;
                    none
                },
                AuthEvent::Idle => none,
            },
            AuthPhase::Finished => none,
        }
    }
}

/// Whether the connection's writer stops after writing `message`.
pub fn ends_session(message: &str) -> (r: bool)
    ensures
        r == contains(message@, "999:"@),
{
    contains_text(message, "999:")
}

// ---------------------------------------------------------------------------
// The console (the third port).

/// The prompt the console writes after each command.
pub open spec fn prompt() -> Seq<char> {
    "#> "@
}

/// What one chunk of console input leads to.
pub struct ConsoleReply {
    /// The texts to write back, in order.
    pub writes: Vec<String>,
    /// The messages to send to clients, in order.
    pub sends: Vec<ConsoleSend>,
    /// Whether the console connection ends.
    pub close: bool,
}

/// A message the console sends to clients.
#[derive(Debug, PartialEq, Eq)]
pub enum ConsoleSend {
    /// To every client (`ClientData::round_robin`).
    ToAll(String),
    /// To the client with this id, if it is registered (`ClientData::send_client_msg_by_id`).
    ToOne(u16, String),
}

/// A console send as values.
pub enum ConsoleSendView {
    ToAll(Seq<char>),
    ToOne(u16, Seq<char>),
}

impl View for ConsoleSend {
    type V = ConsoleSendView;

    open spec fn view(&self) -> ConsoleSendView {
        match self {
            ConsoleSend::ToAll(m) => ConsoleSendView::ToAll(m@),
            ConsoleSend::ToOne(id, m) => ConsoleSendView::ToOne(*id, m@),
        }
    }
}

/// The console sends of a list, as values.
pub open spec fn sends_view(v: Seq<ConsoleSend>) -> Seq<ConsoleSendView> {
    v.map_values(|x: ConsoleSend| x@)
}

/// The byte length of the UTF-8 encoding of `s`.
pub open spec fn utf8_len(s: Seq<char>) -> nat {
    vstd::utf8::encode_utf8(s).len()
}

/// Whether `data` is a `202:` command whose id is taken from its bytes 4 to 8.
pub open spec fn takes_id_bytes(data: Seq<char>) -> bool {
    &&& trim(data) != "200:"@
    &&& contains(data, "202:"@)
    &&& utf8_len(trim(data)) >= 8
}

/// Whether the console can take `data`: the program gives up on the console
/// (it panics) when bytes 4 and 8 of a `202:` command do not fall between
/// characters.
pub open spec fn console_accepts(data: &str) -> bool {
    takes_id_bytes(data@) ==> vstd::utf8::is_char_boundary(data.spec_bytes(), 4)
        && vstd::utf8::is_char_boundary(data.spec_bytes(), 8)
}

/// The listing line of one client.
pub open spec fn console_line(c: ClientRecord) -> Seq<char> {
    "Client ID: "@ + dec(c.id as nat) + " Client IP: "@ + c.ip + " Client Status: "@ + c.status
        + " Client Port: "@ + c.port + " Client CID: "@ + c.cid + "\n"@
}

/// The id that a `202:` command names: its bytes 4 to 8 read as a `u16`, or
/// 0 when they do not read as one.
pub open spec fn console_target(data: &str) -> u16 {
    let part = vstd::utf8::decode_utf8(data.spec_bytes().subrange(4, 8));
    match parse_unsigned(part, 0xffff) {
        Some(n) => n as u16,
        None => 0,
    }
}

/// What the console does with one chunk of input: the writes it makes and
/// whether it closes (the listing aside, whose lines depend on the order of
/// the registry).
pub enum ConsoleCommand {
    /// `200:`: send `"100: keep alive"` to every client.
    KeepAlive,
    /// `202:` with too short an id: only the prompt.
    MissingId,
    /// `202:<id>`: tell that client to shut down.
    ShutdownOne(u16),
    /// `201:`: tell every client to shut down.
    ShutdownAll,
    /// `L` or `l`: list the clients.
    List,
    /// `E`: end the console connection.
    Exit,
    /// Anything else.
    Invalid,
}

/// The console command that `data` holds.
pub open spec fn console_command(data: &str) -> ConsoleCommand {
    let t = trim(data@);
    if t == "200:"@ {
        ConsoleCommand::KeepAlive
    } else if contains(data@, "202:"@) {
        if utf8_len(t) < 8 {
            ConsoleCommand::MissingId
        } else {
            ConsoleCommand::ShutdownOne(console_target(data))
        }
    } else if t == "201:"@ {
        ConsoleCommand::ShutdownAll
    } else if t == "L"@ || t == "l"@ {
        ConsoleCommand::List
    } else if t == "E"@ {
        ConsoleCommand::Exit
    } else {
        ConsoleCommand::Invalid
    }
}

/// The console's listing of the clients of `m` in the order `ks`.
pub open spec fn console_lines(ks: Seq<u16>, m: Map<u16, ClientRecord>) -> Seq<Seq<char>>
    decreases ks.len(),
{
    if ks.len() == 0 {
        Seq::empty()
    } else {
        console_lines(ks.drop_last(), m).push(console_line(m[ks.last()]))
    }
}

/// The writes that the console makes for `cmd`, given the listing `lines`.
pub open spec fn console_writes(cmd: ConsoleCommand, lines: Seq<Seq<char>>) -> Seq<Seq<char>> {
    match cmd {
        ConsoleCommand::List => if lines.len() == 0 {
            seq!["No clients connected\n"@, prompt()]
        } else {
            lines.push(prompt())
        },
        ConsoleCommand::Invalid => seq!["Invalid command\n"@, prompt()],
        _ => seq![prompt()],
    }
}

/// The messages the console sends to clients for `cmd`: a keep-alive to
/// every client for `200:`, a shutdown to every client for `201:`, a shutdown
/// to the named client for `202:<id>`, none otherwise.
pub open spec fn console_sends(cmd: ConsoleCommand) -> Seq<ConsoleSendView> {
    match cmd {
        ConsoleCommand::KeepAlive => seq![ConsoleSendView::ToAll("100: keep alive"@)],
        ConsoleCommand::ShutdownAll => seq![ConsoleSendView::ToAll("999: shutdown"@)],
        ConsoleCommand::ShutdownOne(n) => seq![ConsoleSendView::ToOne(n, "999: shutdown"@)],
        _ => Seq::empty(),
    }
}

/// Reads the id of a `202:` command from bytes 4 to 8 of `data`.
fn target_of(data: &str) -> (r: u16)
    requires
        data.spec_bytes().len() >= 8,
        vstd::utf8::is_char_boundary(data.spec_bytes(), 4),
        vstd::utf8::is_char_boundary(data.spec_bytes(), 8),
    ensures
        r == console_target(data),
{
    broadcast use vstd::utf8::encode_utf8_decode_utf8;
    broadcast use vstd::utf8::encode_utf8_valid_utf8;

    let (_, rest) = data.split_at(4);
    assert(vstd::utf8::is_char_boundary(rest.spec_bytes(), 4)) by {
        let rb = rest.spec_bytes();
        let db = data.spec_bytes();
        vstd::utf8::encode_utf8_valid_utf8(rest@);
        vstd::utf8::encode_utf8_valid_utf8(data@);
        assert(rb =~= db.subrange(4, db.len() as int));
        if rb.len() > 4 {
            assert(rb[4] == db[8]);
            vstd::utf8::is_char_boundary_iff_not_is_continuation_byte(rb, 4);
            vstd::utf8::is_char_boundary_iff_not_is_continuation_byte(db, 8);
        } else {
            vstd::utf8::is_char_boundary_start_end_of_seq(rb);
        }
    }
    let (part, _) = rest.split_at(4);
    assert(part.spec_bytes() =~= data.spec_bytes().subrange(4, 8));
    match parse_u16(part) {
        Some(n) => n,
        None => 0,
    }
}

/// Handles one chunk of console input: the texts to write back, the
/// messages to send to clients (`console_sends`), and whether the console
/// connection ends.
pub fn console_input(registry: &ClientRegistry, data: &str) -> (r: ConsoleReply)
    requires
        console_accepts(data),
    ensures
        r.close == (console_command(data) is Exit),
        !(console_command(data) is List) ==> r.writes@.map_values(|w: String| w@)
            == console_writes(console_command(data), Seq::empty()),
        sends_view(r.sends@) == console_sends(console_command(data)),
        console_command(data) is List ==> exists|ks: Seq<u16>|
            is_key_order(ks, registry@.dom()) && r.writes@.map_values(|w: String| w@)
                == console_writes(ConsoleCommand::List, console_lines(ks, registry@)),
{
    let t = trim_text(data);
    let mut writes: Vec<String> = Vec::new();
    let mut sends: Vec<ConsoleSend> = Vec::new();
    assert(sends_view(sends@) =~= Seq::<ConsoleSendView>::empty());
    if text_eq(t.as_str(), "200:") {
        sends.push(ConsoleSend::ToAll(String::from_str("100: keep alive")));
        assert(sends_view(sends@) =~= seq![ConsoleSendView::ToAll("100: keep alive"@)]);
        writes.push(String::from_str("#> "));
        assert(writes@.map_values(|w: String| w@) =~= seq![prompt()]);
        return ConsoleReply { writes, sends, close: false };
    }
    if contains_text(data, "202:") {
        if t.as_str().as_bytes().len() < 8 {
            writes.push(String::from_str("#> "));
            assert(writes@.map_values(|w: String| w@) =~= seq![prompt()]);
            return ConsoleReply { writes, sends, close: false };
        }
        proof {
            crate::text::lemma_utf8_len_trim(data@);
        }
        let id = target_of(data);
        sends.push(ConsoleSend::ToOne(id, String::from_str("999: shutdown")));
        assert(sends_view(sends@) =~= seq![ConsoleSendView::ToOne(id, "999: shutdown"@)]);
        writes.push(String::from_str("#> "));
        assert(writes@.map_values(|w: String| w@) =~= seq![prompt()]);
        return ConsoleReply { writes, sends, close: false };
    }
    if text_eq(t.as_str(), "201:") {
        sends.push(ConsoleSend::ToAll(String::from_str("999: shutdown")));
        assert(sends_view(sends@) =~= seq![ConsoleSendView::ToAll("999: shutdown"@)]);
        writes.push(String::from_str("#> "));
        assert(writes@.map_values(|w: String| w@) =~= seq![prompt()]);
        return ConsoleReply { writes, sends, close: false };
    }
    if text_eq(t.as_str(), "L") || text_eq(t.as_str(), "l") {
        let clients = ClientData::list_clients(registry);
        let ghost ks = choose|ks: Seq<u16>|
            is_key_order(ks, registry@.dom()) && clients@.len() == ks.len() && forall|i: int|
                0 <= i < ks.len() ==> #[trigger] clients@[i]@ == registry@[ks[i]];
        if clients.len() == 0 {
            writes.push(String::from_str("No clients connected\n"));
            writes.push(String::from_str("#> "));
            assert(console_lines(ks, registry@) =~= Seq::<Seq<char>>::empty());
            assert(writes@.map_values(|w: String| w@) =~= seq!["No clients connected\n"@, prompt()]);
            return ConsoleReply { writes, sends, close: false };
        }
        let mut i: usize = 0;
        while i < clients.len()
            invariant
                clients@.len() == ks.len(),
                forall|j: int| 0 <= j < ks.len() ==> #[trigger] clients@[j]@ == registry@[ks[j]],
                i <= clients@.len(),
                writes@.map_values(|w: String| w@) == console_lines(ks.take(i as int), registry@),
            decreases clients@.len() - i,
        {
            let c = &clients[i];
            let mut line = String::from_str("Client ID: ");
            line.append(decimal(c.id as u64).as_str());
            line.append(" Client IP: ");
            line.append(c.ip.as_str());
            line.append(" Client Status: ");
            line.append(c.status.as_str());
            line.append(" Client Port: ");
            line.append(c.port.as_str());
            line.append(" Client CID: ");
            line.append(c.cid.as_str());
            line.append("\n");
            writes.push(line);
            proof {
                let tk = ks.take(i + 1);
                assert(tk.drop_last() =~= ks.take(i as int));
                assert(tk.last() == ks[i as int]);
                assert(clients@[i as int]@ == registry@[ks[i as int]]);
                assert(writes@.map_values(|w: String| w@) =~= console_lines(tk, registry@));
            }
            i = i + 1;
        }
        writes.push(String::from_str("#> "));
        proof {
            assert(ks.take(ks.len() as int) =~= ks);
            assert(console_lines(ks, registry@).len() == ks.len()) by {
                lemma_console_lines_len(ks, registry@);
            }
            assert(writes@.map_values(|w: String| w@) =~= console_lines(ks, registry@).push(
                prompt(),
            ));
        }
        return ConsoleReply { writes, sends, close: false };
    }
    if text_eq(t.as_str(), "E") {
        writes.push(String::from_str("#> "));
        assert(writes@.map_values(|w: String| w@) =~= seq![prompt()]);
        return ConsoleReply { writes, sends, close: true };
    }
    writes.push(String::from_str("Invalid command\n"));
    writes.push(String::from_str("#> "));
    assert(writes@.map_values(|w: String| w@) =~= seq!["Invalid command\n"@, prompt()]);
    ConsoleReply { writes, sends, close: false }
}

proof fn lemma_console_lines_len(ks: Seq<u16>, m: Map<u16, ClientRecord>)
    ensures
        console_lines(ks, m).len() == ks.len(),
    decreases ks.len(),
{
    if ks.len() > 0 {
        lemma_console_lines_len(ks.drop_last(), m);
    }
}

/// Whether the console can take `data` (see `console_accepts`).
pub fn console_can_take(data: &str) -> (r: bool)
    ensures
        r == console_accepts(data),
{
    let t = trim_text(data);
    if text_eq(t.as_str(), "200:") || !contains_text(data, "202:") || t.as_str().as_bytes().len() < 8 {
        return true;
    }
    proof {
        crate::text::lemma_utf8_len_trim(data@);
    }
    data.is_char_boundary(4) && data.is_char_boundary(8)
}

} // verus!

verus! {

/// A wrong password ends the connection without registering anything.
pub proof fn law_wrong_password_rejected(
    s: AuthManagerView,
    m: Map<u16, ClientRecord>,
    password: Seq<char>,
)
    requires
        s.phase is AwaitingPassword,
        password != s.password,
    ensures
        auth_step(s, m, AuthEventView::Received(password)).phase is Finished,
        auth_step(s, m, AuthEventView::Received(password)).registry == m,
{
}

/// Clients are registered only when the id is received: in every other
/// phase, a step adds no client to the registry.
pub proof fn law_registration_only_on_id(s: AuthManagerView, m: Map<u16, ClientRecord>, e: AuthEventView)
    requires
        !(s.phase is AwaitingId),
    ensures
        auth_step(s, m, e).registry.dom().subset_of(m.dom()),
{
}

/// A connection that claims an id already registered is told to shut down
/// (`999: shutdown`) and is then shut down; the registered client stays as it was.
pub proof fn law_taken_id_refused(s: AuthManagerView, m: Map<u16, ClientRecord>, text: Seq<char>)
    requires
        s.phase is AwaitingId,
        split_once(s.peer, ':') is Some,
        parse_unsigned(text, 0xffff) matches Some(n) && m.contains_key(n as u16),
    ensures
        auth_step(s, m, AuthEventView::Received(text)).phase is Finished,
        auth_step(s, m, AuthEventView::Received(text)).registry == m,
        auth_step(s, m, AuthEventView::Received(text)).actions == seq![
            AuthActionView::Write(disconnect_text()),
            AuthActionView::Shutdown,
        ],
{
}

/// A client registered by a handler holds the handler's writer channel,
/// with the peer's address and port, status `"active"` and the id text as CID.
pub proof fn law_registered_client_holds_its_channel(
    s: AuthManagerView,
    m: Map<u16, ClientRecord>,
    text: Seq<char>,
)
    requires
        s.phase is AwaitingId,
        split_once(s.peer, ':') is Some,
        parse_unsigned(text, 0xffff) matches Some(n) && !m.contains_key(n as u16),
    ensures
        ({
            let n = parse_unsigned(text, 0xffff).unwrap() as u16;
            let (ip, port) = split_once(s.peer, ':').unwrap();
            let st = auth_step(s, m, AuthEventView::Received(text));
            &&& st.registry == m.insert(n, new_record(n, ip, port, text, s.channel))
            &&& st.registry[n].channel == s.channel
            &&& st.actions == seq![AuthActionView::Send("140: Connected"@)]
        }),
{
}

/// Once the keep-alive deadline of a connected handler has passed, the next
/// tick broadcasts `"100: keep alive"` to every client and sets the next
/// deadline ten seconds after that tick; before it, a tick does nothing.
pub proof fn law_keep_alive_rounds(
    s: AuthManagerView,
    m: Map<u16, ClientRecord>,
    id: u16,
    keep_alive_at: u128,
    t: u128,
)
    requires
        s.phase == (AuthPhase::Connected { id, keep_alive_at }),
        t <= u128::MAX - KEEP_ALIVE_MS,
    ensures
        ({
            let st = auth_step(s, m, AuthEventView::Tick(t));
            &&& t > keep_alive_at ==> st.actions == seq![
                AuthActionView::Broadcast("100: keep alive"@),
            ] && st.phase == (AuthPhase::Connected { id, keep_alive_at: (t + KEEP_ALIVE_MS) as u128 })
            &&& t <= keep_alive_at ==> st.actions.len() == 0 && st.phase == s.phase
            &&& st.registry == m
        }),
{
}

/// A connected client that sends anything is taken out of the registry: the
/// handler deregisters on every message it receives, the `"999: shutdown"`
/// that the reader passes on for a closed connection included. It stops
/// exactly when the message holds `999:`, and otherwise stays as it was.
/// When the reader's channel closes, the handler stops and the registry is
/// left alone.
pub proof fn law_connected_message_deregisters(
    s: AuthManagerView,
    m: Map<u16, ClientRecord>,
    id: u16,
    keep_alive_at: u128,
    msg: Seq<char>,
)
    requires
        s.phase == (AuthPhase::Connected { id, keep_alive_at }),
    ensures
        auth_step(s, m, AuthEventView::Received(msg)).registry == m.remove(id),
        !auth_step(s, m, AuthEventView::Received(msg)).registry.contains_key(id),
        forall|k: u16|
            k != id ==> #[trigger] auth_step(s, m, AuthEventView::Received(msg)).registry.contains_key(
                k,
            ) == m.contains_key(k),
        auth_step(s, m, AuthEventView::Received(msg)).phase is Finished <==> contains(
            msg,
            "999:"@,
        ),
        !contains(msg, "999:"@) ==> auth_step(s, m, AuthEventView::Received(msg)).phase == s.phase,
        auth_step(s, m, AuthEventView::Received(msg)).actions.len() == 0,
        auth_step(s, m, AuthEventView::ReaderClosed).phase is Finished,
        auth_step(s, m, AuthEventView::ReaderClosed).registry == m,
{
}

/// Once a connected client has left, its id is free again: a later
/// connection that gives the same id is registered under it.
pub proof fn law_id_free_after_leaving(
    s: AuthManagerView,
    m: Map<u16, ClientRecord>,
    id: u16,
    keep_alive_at: u128,
    msg: Seq<char>,
    later: AuthManagerView,
    text: Seq<char>,
)
    requires
        s.phase == (AuthPhase::Connected { id, keep_alive_at }),
        later.phase is AwaitingId,
        split_once(later.peer, ':') is Some,
        parse_unsigned(text, 0xffff) == Some(id as nat),
    ensures
        ({
            let after = auth_step(s, m, AuthEventView::Received(msg)).registry;
            let again = auth_step(later, after, AuthEventView::Received(text));
            &&& again.phase == (AuthPhase::Connected { id, keep_alive_at: KEEP_ALIVE_MS })
            &&& again.registry.contains_key(id)
            &&& again.registry[id].channel == later.channel
        }),
{
}

/// The console reads a command from its input trimmed of surrounding
/// whitespace: `200:` sends a keep-alive to every client; `201:` (when the
/// input holds no `202:`) tells every client to shut down; `E` ends the
/// console; `L` or `l` lists the clients. Each of the first three writes back
/// the prompt alone.
pub proof fn law_console_commands_trimmed(data: &str)
    ensures
        trim(data@) == "200:"@ ==> console_sends(console_command(data)) == seq![
            ConsoleSendView::ToAll("100: keep alive"@),
        ] && console_writes(console_command(data), Seq::empty()) == seq![prompt()]
            && !(console_command(data) is Exit),
        !contains(data@, "202:"@) && trim(data@) == "201:"@ ==> console_sends(console_command(data))
            == seq![ConsoleSendView::ToAll("999: shutdown"@)] && console_writes(
            console_command(data),
            Seq::empty(),
        ) == seq![prompt()] && !(console_command(data) is Exit),
        !contains(data@, "202:"@) && trim(data@) == "E"@ ==> console_command(data) is Exit
            && console_sends(console_command(data)).len() == 0 && console_writes(
            console_command(data),
            Seq::empty(),
        ) == seq![prompt()],
        !contains(data@, "202:"@) && (trim(data@) == "L"@ || trim(data@) == "l"@)
            ==> console_command(data) is List && console_sends(console_command(data)).len() == 0,
        contains(data@, "202:"@) && trim(data@) != "200:"@ ==> !(console_command(data) is Exit)
            && !(console_command(data) is List) && (console_sends(console_command(data)).len() == 0
            || console_sends(console_command(data)) == seq![
            ConsoleSendView::ToOne(console_target(data), "999: shutdown"@),
        ]),
{
    reveal_strlit("200:");
    reveal_strlit("201:");
    reveal_strlit("E");
    reveal_strlit("L");
    reveal_strlit("l");
    assert("201:"@ != "200:"@) by {
        assert("201:"@[2] != "200:"@[2]);
    }
    assert("E"@ != "200:"@) by {
        assert("E"@.len() != "200:"@.len());
    }
    assert("L"@ != "200:"@) by {
        assert("L"@.len() != "200:"@.len());
    }
    assert("l"@ != "200:"@) by {
        assert("l"@.len() != "200:"@.len());
    }
    assert("E"@ != "201:"@) by {
        assert("E"@.len() != "201:"@.len());
    }
    assert("L"@ != "201:"@) by {
        assert("L"@.len() != "201:"@.len());
    }
    assert("l"@ != "201:"@) by {
        assert("l"@.len() != "201:"@.len());
    }
    assert("L"@ != "E"@) by {
        assert("L"@[0] != "E"@[0]);
    }
    assert("l"@ != "E"@) by {
        assert("l"@[0] != "E"@[0]);
    }
}

/// Once the handler has finished, nothing it is told changes anything.
pub proof fn law_finished_is_final(s: AuthManagerView, m: Map<u16, ClientRecord>, e: AuthEventView)
    requires
        s.phase is Finished,
    ensures
        auth_step(s, m, e).phase is Finished,
        auth_step(s, m, e).registry == m,
        auth_step(s, m, e).actions.len() == 0,
{
}

} // verus!

verus! {

/// What the connection's reader does with one read.
#[derive(Debug, PartialEq, Eq)]
pub enum ReaderStep {
    /// Pass the text read on to the handler.
    Forward(String),
    /// The peer closed the connection: pass this message on and stop.
    Close(String),
}

/// Decides what the reader does after reading `bytes_read` bytes whose text is
/// `text`: an empty read means the peer has gone, which the handler learns as
/// `"999: shutdown"`.
pub fn reader_step(bytes_read: usize, text: String) -> (r: ReaderStep)
    ensures
        bytes_read == 0 ==> (r matches ReaderStep::Close(m) && m@ == "999: shutdown"@),
        bytes_read != 0 ==> (r matches ReaderStep::Forward(m) && m@ == text@),
{
    if bytes_read == 0 {
        ReaderStep::Close(String::from_str("999: shutdown"))
    } else {
        ReaderStep::Forward(text)
    }
}

} // verus!
