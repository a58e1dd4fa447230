//! The client's side of the connection protocol: answer the password and id
//! prompts, wait to be accepted, then obey the server's messages.
use vstd::prelude::*;

use crate::text::{contains, contains_text, trim, trim_text};

verus! {

/// Where the client stands.
#[derive(Debug, Clone, Copy, PartialEq, Eq)]
pub enum ClientPhase {
    /// Waiting for the password prompt.
    AwaitingPasswordPrompt,
    /// Waiting for the id prompt.
    AwaitingIdPrompt,
    /// Waiting to be told that the connection is accepted.
    AwaitingConnected,
    /// Accepted: obeying the server's messages.
    Running,
    /// The client has given up and returns.
    Stopped,
    /// The server told the client to shut down: the process exits.
    Exited,
}

/// What the client asks of the program.
#[derive(Debug, PartialEq, Eq)]
pub enum ClientAction {
    /// Write a text to the server.
    Write(String),
    /// Shut the connection down in both directions.
    Shutdown,
}

/// An action as values.
pub enum ClientActionView {
    Write(Seq<char>),
    Shutdown,
}

impl View for ClientAction {
    type V = ClientActionView;

    open spec fn view(&self) -> ClientActionView {
        match self {
            ClientAction::Write(s) => ClientActionView::Write(s@),
            ClientAction::Shutdown => ClientActionView::Shutdown,
        }
    }
}

/// The actions of a list, as values.
pub open spec fn client_actions_view(v: Seq<ClientAction>) -> Seq<ClientActionView> {
    v.map_values(|a: ClientAction| a@)
}

/// The client's state.
pub struct ClientSession {
    phase: ClientPhase,
    password: String,
    clientid: String,
}

/// The client's state as values.
pub struct ClientSessionView {
    pub phase: ClientPhase,
    pub password: Seq<char>,
    pub clientid: Seq<char>,
}

impl View for ClientSession {
    type V = ClientSessionView;

    closed spec fn view(&self) -> ClientSessionView {
        ClientSessionView { phase: self.phase, password: self.password@, clientid: self.clientid@ }
    }
}

/// The outcome of one step: the next phase and the actions.
pub struct ClientStep {
    pub phase: ClientPhase,
    pub actions: Seq<ClientActionView>,
}

/// What the client does with a text read from the server; `interrupted`
/// tells whether the user has asked it to stop (Ctrl+C).
pub open spec fn client_step(s: ClientSessionView, text: Seq<char>, interrupted: bool) -> ClientStep {
    match s.phase {
        ClientPhase::AwaitingPasswordPrompt => ClientStep {
            phase: ClientPhase::AwaitingIdPrompt,
            actions: if contains(text, "110: qual a senha"@) {
                seq![ClientActionView::Write(trim(s.password))]
            } else {
                Seq::empty()
            },
        },
        ClientPhase::AwaitingIdPrompt => ClientStep {
            phase: if contains(text, "Invalid password"@) {
                ClientPhase::Stopped
            } else {
                ClientPhase::AwaitingConnected
            },
            actions: if contains(text, "120: qual o ID"@) {
                seq![ClientActionView::Write(trim(s.clientid))]
            } else {
                Seq::empty()
            },
        },
        ClientPhase::AwaitingConnected => ClientStep {
            phase: if contains(text, "140: Connected"@) {
                ClientPhase::Running
            } else {
                ClientPhase::Stopped
            },
            actions: Seq::empty(),
        },
        ClientPhase::Running => {
            let first: Seq<ClientActionView> = if interrupted {
                seq![ClientActionView::Shutdown]
            } else {
                Seq::empty()
            };
            if contains(text, "999:"@) {
                ClientStep {
                    phase: ClientPhase::Exited,
                    actions: first.push(ClientActionView::Shutdown),
                }
            } else if contains(text, "110:"@) {
                ClientStep {
                    phase: ClientPhase::Running,
                    actions: first.push(ClientActionView::Write(trim(s.clientid))),
                }
            } else {
                ClientStep { phase: ClientPhase::Running, actions: first }
            }
        },
        _ => ClientStep { phase: s.phase, actions: Seq::empty() },
    }
}

impl ClientSession {
    /// A client that will send `password` and register as `clientid`.
    pub fn new(password: String, clientid: String) -> (r: ClientSession)
        ensures
            r@ == (ClientSessionView {
                phase: ClientPhase::AwaitingPasswordPrompt,
                password: password@,
                clientid: clientid@,
            }),
    {
        ClientSession { phase: ClientPhase::AwaitingPasswordPrompt, password, clientid }
    }

    /// Where the client stands.
    pub fn phase(&self) -> (r: ClientPhase)
        ensures
            r == self@.phase,
    {
        self.phase
    }

    /// Takes a text read from the server, as `client_step` describes.
    pub fn step(&mut self, text: &str, interrupted: bool) -> (r: Vec<ClientAction>)
        ensures
            final(self)@ == (ClientSessionView {
                phase: client_step(old(self)@, text@, interrupted).phase,
                ..old(self)@
            }),
            client_actions_view(r@) == client_step(old(self)@, text@, interrupted).actions,
    {
        let mut actions: Vec<ClientAction> = Vec::new();
        match self.phase {
            ClientPhase::AwaitingPasswordPrompt => {
                if contains_text(text, "110: qual a senha") {
                    actions.push(ClientAction::Write(trim_text(self.password.as_str())));
                }
                self.phase = ClientPhase::AwaitingIdPrompt;
            },
            ClientPhase::AwaitingIdPrompt => {
                if contains_text(text, "120: qual o ID") {
                    actions.push(ClientAction::Write(trim_text(self.clientid.as_str())));
                }
                if contains_text(text, "Invalid password") {
                    self.phase = ClientPhase::Stopped;
                } else {
                    self.phase = ClientPhase::AwaitingConnected;
                }
            },
            ClientPhase::AwaitingConnected => {
                if contains_text(text, "140: Connected") {
                    self.phase = ClientPhase::Running;
                } else {
                    self.phase = ClientPhase::Stopped;
                }
            },
            ClientPhase::Running => {
                if interrupted {
                    actions.push(ClientAction::Shutdown);
                }
                if contains_text(text, "999:") {
                    actions.push(ClientAction::Shutdown);
                    self.phase = ClientPhase::Exited;
                } else if contains_text(text, "110:") {
                    actions.push(ClientAction::Write(trim_text(self.clientid.as_str())));
                }
            },
            _ => {},
        }
        proof {
            let st = client_step(old(self)@, text@, interrupted);
            assert(client_actions_view(actions@) =~= st.actions);
        }
        actions
    }
}

} // verus!

verus! {

/// A client that has stopped or exited does nothing more.
pub proof fn law_client_end_is_final(s: ClientSessionView, text: Seq<char>, interrupted: bool)
    requires
        s.phase is Stopped || s.phase is Exited,
    ensures
        client_step(s, text, interrupted).phase == s.phase,
        client_step(s, text, interrupted).actions.len() == 0,
{
}

/// The client writes its password only while it waits for the password
/// prompt and has just read `110: qual a senha` (where the trimmed password
/// differs from the trimmed id, so that the two writes can be told apart).
pub proof fn law_client_answers_only_prompts(s: ClientSessionView, text: Seq<char>, interrupted: bool)
    ensures
        client_step(s, text, interrupted).actions.contains(ClientActionView::Write(trim(s.password)))
            && trim(s.password) != trim(s.clientid) ==> s.phase is AwaitingPasswordPrompt && contains(
            text,
            "110: qual a senha"@,
        ),
{
    let st = client_step(s, text, interrupted);
    if st.actions.contains(ClientActionView::Write(trim(s.password))) && trim(s.password) != trim(
        s.clientid,
    ) {
        let k = choose|k: int| 0 <= k < st.actions.len() && st.actions[k] == ClientActionView::Write(
            trim(s.password),
        );
        if !(s.phase is AwaitingPasswordPrompt) {
            if s.phase is Running {
                let first: Seq<ClientActionView> = if interrupted {
                    seq![ClientActionView::Shutdown]
                } else {
                    Seq::empty()
                };
                assert(st.actions[k] != ClientActionView::Write(trim(s.password))) by {
                    if k < first.len() {
                    } else {
                    }
                }
            }
        }
    }
}

} // verus!
