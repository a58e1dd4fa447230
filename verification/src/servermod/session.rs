//! The decisions of the first server: the handler of one client connection
//! (password, registration, departure) and its console.
use vstd::prelude::*;
use vstd::string::StringExecFns;

use crate::maps::is_key_order;
use crate::server::{actions_view, AuthAction, AuthActionView, AuthEvent, AuthEventView};
use crate::servermod::clientdata::{
    client_lines, find_client_by_id, list_all_clients2, listing_heading, save_client, ClientData,
    ClientStore, ClientView,
};
use crate::text::{parse_u16, parse_unsigned, split_once, split_once_char, text_eq, trim, trim_text};

verus! {

/// Where the handling of one connection stands.
#[derive(Debug, Clone, Copy, PartialEq, Eq)]
pub enum HandlerPhase {
    /// The password has been asked for.
    AwaitingPassword,
    /// The client's id has been asked for.
    AwaitingId,
    /// The client is registered under `id`.
    Connected { id: u16 },
    /// The handler has stopped.
    Finished,
}

/// The handler of one client connection of the first server.
pub struct ConnectionHandler {
    phase: HandlerPhase,
    password: String,
    peer: String,
}

/// A handler as values: its phase, the expected password and the peer address.
pub struct ConnectionHandlerView {
    pub phase: HandlerPhase,
    pub password: Seq<char>,
    pub peer: Seq<char>,
}

impl View for ConnectionHandler {
    type V = ConnectionHandlerView;

    closed spec fn view(&self) -> ConnectionHandlerView {
        ConnectionHandlerView { phase: self.phase, password: self.password@, peer: self.peer@ }
    }
}

/// The outcome of one step: the next phase, the actions, the store after it.
pub struct HandlerStep {
    pub phase: HandlerPhase,
    pub actions: Seq<AuthActionView>,
    pub store: Map<u16, ClientView>,
}

/// Whether the handler can take `e`: the program gives up on the connection
/// (it panics) when the reader closes while the id is awaited, or when the id
/// is not a number.
pub open spec fn handler_accepts(s: ConnectionHandlerView, e: AuthEventView) -> bool {
    match (s.phase, e) {
        (HandlerPhase::AwaitingId, AuthEventView::ReaderClosed) => false,
        (HandlerPhase::AwaitingId, AuthEventView::Received(text)) => split_once(s.peer, ':') is None
            || parse_unsigned(text, 0xffff) is Some,
        _ => true,
    }
}

/// The record saved for a newly registered client.
pub open spec fn registered(id: u16, ip: Seq<char>, port: Seq<char>, cid: Seq<char>) -> ClientView {
    ClientView { id, ip, status: "active"@, port, cid }
}

/// One step of the handler.
pub open spec fn handler_step(
    s: ConnectionHandlerView,
    m: Map<u16, ClientView>,
    e: AuthEventView,
) -> HandlerStep {
    let same = HandlerStep { phase: s.phase, actions: Seq::empty(), store: m };
    match s.phase {
        HandlerPhase::AwaitingPassword => match e {
            AuthEventView::Received(p) => if p == s.password {
                HandlerStep {
                    phase: HandlerPhase::AwaitingId,
                    actions: seq![AuthActionView::Send("120: qual o ID"@)],
                    store: m,
                }
            } else {
                HandlerStep {
                    phase: HandlerPhase::Finished,
                    actions: seq![
                        AuthActionView::Write("Senha incorreta desconnecting client"@),
                        AuthActionView::Shutdown,
                    ],
                    store: m,
                }
            },
            AuthEventView::ReaderClosed => HandlerStep {
                phase: HandlerPhase::AwaitingId,
                actions: seq![AuthActionView::Send("120: qual o ID"@)],
                store: m,
            },
            _ => same,
        },
        HandlerPhase::AwaitingId => match e {
            AuthEventView::Received(text) => match split_once(s.peer, ':') {
                None => HandlerStep { phase: HandlerPhase::Finished, actions: Seq::empty(), store: m },
                Some((ip, port)) => {
                    let id = parse_unsigned(text, 0xffff)->0 as u16;
                    if m.contains_key(id) {
                        HandlerStep {
                            phase: HandlerPhase::Finished,
                            actions: seq![AuthActionView::Shutdown],
                            store: m,
                        }
                    } else {
                        HandlerStep {
                            phase: HandlerPhase::Connected { id },
                            actions: seq![AuthActionView::Send("140: Connected"@)],
                            store: m.insert(id, registered(id, ip, port, text)),
                        }
                    }
                },
            },
            _ => same,
        },
        HandlerPhase::Connected { .. } => match e {
            AuthEventView::Received(msg) => if msg == "exit"@ {
                HandlerStep { phase: HandlerPhase::Finished, actions: Seq::empty(), store: m }
            } else {
                same
            },
            AuthEventView::ReaderClosed => HandlerStep {
                phase: HandlerPhase::Finished,
                actions: Seq::empty(),
                store: m,
            },
            _ => same,
        },
        HandlerPhase::Finished => same,
    }
}

impl ConnectionHandler {
    /// A handler for a new connection from `peer`; its first action asks for
    /// the password.
    pub fn start(password: String, peer: String) -> (r: (ConnectionHandler, Vec<AuthAction>))
        ensures
            r.0@ == (ConnectionHandlerView {
                phase: HandlerPhase::AwaitingPassword,
                password: password@,
                peer: peer@,
            }),
            actions_view(r.1@) == seq![AuthActionView::Send("110: qual a senha"@)],
    {
        let h = ConnectionHandler { phase: HandlerPhase::AwaitingPassword, password, peer };
        let mut actions = Vec::new();
        actions.push(AuthAction::Send(String::from_str("110: qual a senha")));
        assert(actions_view(actions@) =~= seq![AuthActionView::Send("110: qual a senha"@)]);
        (h, actions)
    }

    /// The phase of the handler.
    pub fn phase(&self) -> (r: HandlerPhase)
        ensures
            r == self@.phase,
    {
        self.phase
    }

    /// Whether the handler can take `event` (see `handler_accepts`).
    pub fn can_take(&self, event: &AuthEvent) -> (r: bool)
        ensures
            r == handler_accepts(self@, event@),
    {
        match self.phase {
            HandlerPhase::AwaitingId => match event {
                AuthEvent::ReaderClosed => false,
                AuthEvent::Received(text) => {
                    split_once_char(self.peer.as_str(), ':').is_none() || parse_u16(
                        text.as_str(),
                    ).is_some()
                },
                _ => true,
            },
            _ => true,
        }
    }

    /// Takes one event: moves to the next phase, updates the store, and gives
    /// the actions to perform, as `handler_step` describes.
    pub fn step(&mut self, store: &mut ClientStore, event: AuthEvent) -> (r: Vec<AuthAction>)
        requires
            handler_accepts(old(self)@, event@),
        ensures
            final(self)@ == (ConnectionHandlerView {
                phase: handler_step(old(self)@, old(store)@, event@).phase,
                ..old(self)@
            }),
            actions_view(r@) == handler_step(old(self)@, old(store)@, event@).actions,
            final(store)@ == handler_step(old(self)@, old(store)@, event@).store,
    {
        let mut actions: Vec<AuthAction> = Vec::new();
        assert(actions_view(actions@) =~= Seq::<AuthActionView>::empty());
        match self.phase {
            HandlerPhase::AwaitingPassword => match event {
                AuthEvent::Received(p) => {
                    if p == self.password {
                        self.phase = HandlerPhase::AwaitingId;
                        actions.push(AuthAction::Send(String::from_str("120: qual o ID")));
                        assert(actions_view(actions@) =~= seq![
                            AuthActionView::Send("120: qual o ID"@),
                        ]);
                    } else {
                        self.phase = HandlerPhase::Finished;
                        actions.push(
                            AuthAction::Write(String::from_str("Senha incorreta desconnecting client")),
                        );
                        actions.push(AuthAction::Shutdown);
                        assert(actions_view(actions@) =~= seq![
                            AuthActionView::Write("Senha incorreta desconnecting client"@),
                            AuthActionView::Shutdown,
                        ]);
                    }
                },
                AuthEvent::ReaderClosed => {
                    self.phase = HandlerPhase::AwaitingId;
                    actions.push(AuthAction::Send(String::from_str("120: qual o ID")));
                    assert(actions_view(actions@) =~= seq![AuthActionView::Send("120: qual o ID"@)]);
                },
                _ => {},
            },
            HandlerPhase::AwaitingId => match event {
                AuthEvent::Received(text) => {
                    match split_once_char(self.peer.as_str(), ':') {
                        None => {
                            self.phase = HandlerPhase::Finished;
                        },
                        Some((ip, port)) => {
                            let id = match parse_u16(text.as_str()) {
                                Some(id) => id,
                                None => {
                                    assert(false);
                                    0
                                },
                            };
                            match find_client_by_id(store, id) {
                                Some(_) => {
                                    self.phase = HandlerPhase::Finished;
                                    actions.push(AuthAction::Shutdown);
                                    assert(actions_view(actions@) =~= seq![AuthActionView::Shutdown]);
                                },
                                None => {
                                    let client = ClientData {
                                        id,
                                        ip,
                                        status: String::from_str("active"),
                                        port,
                                        cid: text,
                                    };
                                    save_client(store, client);
                                    self.phase = HandlerPhase::Connected { id };
                                    actions.push(AuthAction::Send(String::from_str("140: Connected")));
                                    assert(actions_view(actions@) =~= seq![
                                        AuthActionView::Send("140: Connected"@),
                                    ]);
                                },
                            }
                        },
                    }
                },
                _ => {},
            },
            HandlerPhase::Connected { .. } => match event {
                AuthEvent::Received(message) => {
                    if text_eq(message.as_str(), "exit") {
                        self.phase = HandlerPhase::Finished;
                    }
                },
                AuthEvent::ReaderClosed => {
                    self.phase = HandlerPhase::Finished;
                },
                _ => {},
            },
            HandlerPhase::Finished => {},
        }
        actions
    }
}

/// What one chunk of console input leads to: a text to write back, if any,
/// and whether the console connection ends.
pub struct ConsoleAnswer {
    pub reply: Option<String>,
    pub close: bool,
}

/// Handles one chunk of input on the console of the first server: `L` or
/// `l` lists the clients, `E` ends the connection, anything else is refused.
pub fn console_input(store: &ClientStore, data: &str) -> (r: ConsoleAnswer)
    ensures
        r.close == (trim(data@) == "E"@),
        (trim(data@) == "L"@ || trim(data@) == "l"@) ==> (r.reply matches Some(text) && exists|
            ks: Seq<u16>,
        | is_key_order(ks, store@.dom()) && text@ == listing_heading(store@) + client_lines(
            ks,
            store@,
        )),
        trim(data@) == "E"@ ==> r.reply is None,
        !(trim(data@) == "L"@ || trim(data@) == "l"@ || trim(data@) == "E"@) ==> (r.reply matches Some(
            text,
        ) && text@ == "Invalid command\n"@),
{
    proof {
        reveal_strlit("E");
        reveal_strlit("L");
        reveal_strlit("l");
        assert("E"@ != "L"@) by {
            assert("E"@[0] != "L"@[0]);
        }
        assert("E"@ != "l"@) by {
            assert("E"@[0] != "l"@[0]);
        }
    }
    let t = trim_text(data);
    if text_eq(t.as_str(), "L") || text_eq(t.as_str(), "l") {
        ConsoleAnswer { reply: Some(list_all_clients2(store)), close: false }
    } else if text_eq(t.as_str(), "E") {
        ConsoleAnswer { reply: None, close: true }
    } else {
        ConsoleAnswer { reply: Some(String::from_str("Invalid command\n")), close: false }
    }
}

/// A connected handler stops when its client's connection closes (the
/// reader's channel closes) or when the client says `exit`; any other message
/// leaves it connected. None of these touch the store or ask for an action.
pub proof fn law_session_ends_when_client_leaves(
    s: ConnectionHandlerView,
    m: Map<u16, ClientView>,
    id: u16,
    msg: Seq<char>,
)
    requires
        s.phase == (HandlerPhase::Connected { id }),
    ensures
        handler_step(s, m, AuthEventView::ReaderClosed).phase is Finished,
        handler_step(s, m, AuthEventView::ReaderClosed).store == m,
        handler_step(s, m, AuthEventView::ReaderClosed).actions.len() == 0,
        handler_step(s, m, AuthEventView::Received("exit"@)).phase is Finished,
        msg != "exit"@ ==> handler_step(s, m, AuthEventView::Received(msg)).phase == s.phase,
        handler_step(s, m, AuthEventView::Received(msg)).store == m,
        handler_step(s, m, AuthEventView::Idle).phase == s.phase,
{
}

/// A wrong password stops the handler with the refusal written and the
/// connection shut down; the right one moves on to asking the id.
pub proof fn law_session_password(s: ConnectionHandlerView, m: Map<u16, ClientView>, p: Seq<char>)
    requires
        s.phase is AwaitingPassword,
    ensures
        p != s.password ==> handler_step(s, m, AuthEventView::Received(p)).phase is Finished
            && handler_step(s, m, AuthEventView::Received(p)).actions == seq![
            AuthActionView::Write("Senha incorreta desconnecting client"@),
            AuthActionView::Shutdown,
        ],
        handler_step(s, m, AuthEventView::Received(s.password)).phase is AwaitingId,
        handler_step(s, m, AuthEventView::Received(p)).store == m,
{
}

/// A handler given a free id registers the client under it, as active, with
/// the peer's address and port and the id text as CID; a taken id is refused
/// and the registered client stays as it was.
pub proof fn law_session_registers_free_id(
    s: ConnectionHandlerView,
    m: Map<u16, ClientView>,
    text: Seq<char>,
    id: u16,
)
    requires
        s.phase is AwaitingId,
        split_once(s.peer, ':') is Some,
        parse_unsigned(text, 0xffff) == Some(id as nat),
    ensures
        ({
            let (ip, port) = split_once(s.peer, ':').unwrap();
            let st = handler_step(s, m, AuthEventView::Received(text));
            &&& !m.contains_key(id) ==> st.phase == (HandlerPhase::Connected { id }) && st.store
                == m.insert(id, registered(id, ip, port, text)) && st.store[id].status == "active"@
            &&& m.contains_key(id) ==> st.phase is Finished && st.store == m
        }),
{
}

} // verus!
