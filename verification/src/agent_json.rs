//! The agent's structured protocol: commands and responses as values (the
//! program exchanges them as JSON lines), over the same client table as the
//! line protocol.
use vstd::prelude::*;
use vstd::string::StringExecFns;

use crate::agent::{message_with_number, with_number, Client, ClientTable, ClientView};
use crate::maps::is_key_order;

verus! {

/// A request to the agent.
#[derive(Debug, PartialEq, Eq)]
pub enum Command {
    List,
    Search { id: u32 },
    Add { client: Client },
    Remove { id: u32 },
    Update { id: u32, client: Client },
}

/// A request as values.
pub enum CommandView {
    List,
    Search { id: u32 },
    Add { client: ClientView },
    Remove { id: u32 },
    Update { id: u32, client: ClientView },
}

impl View for Command {
    type V = CommandView;

    open spec fn view(&self) -> CommandView {
        match self {
            Command::List => CommandView::List,
            Command::Search { id } => CommandView::Search { id: *id },
            Command::Add { client } => CommandView::Add { client: client@ },
            Command::Remove { id } => CommandView::Remove { id: *id },
            Command::Update { id, client } => CommandView::Update { id: *id, client: client@ },
        }
    }
}

/// The agent's answer to a request.
#[derive(Debug, PartialEq, Eq)]
pub struct Response {
    pub success: bool,
    pub message: String,
    pub data: Option<Vec<Client>>,
    pub client: Option<Client>,
}

/// An answer as values.
pub struct ResponseView {
    pub success: bool,
    pub message: Seq<char>,
    pub data: Option<Seq<ClientView>>,
    pub client: Option<ClientView>,
}

impl View for Response {
    type V = ResponseView;

    open spec fn view(&self) -> ResponseView {
        ResponseView {
            success: self.success,
            message: self.message@,
            data: match self.data {
                Some(v) => Some(v@.map_values(|c: Client| c@)),
                None => None,
            },
            client: match self.client {
                Some(c) => Some(c@),
                None => None,
            },
        }
    }
}

/// An answer that carries only a status and a message.
pub open spec fn plain(success: bool, message: Seq<char>) -> ResponseView {
    ResponseView { success, message, data: None, client: None }
}

/// `"Client ID <id>"` followed by `rest`.
pub open spec fn about(id: u32, rest: Seq<char>) -> Seq<char> {
    with_number("Client ID "@, id as nat, rest)
}

/// The answer to a request other than `List`, and the table that follows it.
pub open spec fn reply(cmd: CommandView, m: Map<u32, ClientView>) -> (
    ResponseView,
    Map<u32, ClientView>,
) {
    match cmd {
        CommandView::Search { id } => if m.contains_key(id) {
            (
                ResponseView {
                    success: true,
                    message: "Client found"@,
                    data: None,
                    client: Some(m[id]),
                },
                m,
            )
        } else {
            (plain(false, about(id, " not found"@)), m)
        },
        CommandView::Add { client } => if m.contains_key(client.id) {
            (plain(false, about(client.id, " already exists"@)), m)
        } else {
            (plain(true, about(client.id, " added"@)), m.insert(client.id, client))
        },
        CommandView::Remove { id } => if m.contains_key(id) {
            (plain(true, about(id, " removed"@)), m.remove(id))
        } else {
            (plain(false, about(id, " not found"@)), m)
        },
        CommandView::Update { id, client } => if m.contains_key(id) {
            (plain(true, about(id, " updated"@)), m.insert(id, client))
        } else {
            (plain(false, about(id, " not found"@)), m)
        },
        CommandView::List => (plain(true, "OK"@), m),
    }
}

/// Whether `r` is a correct answer to `List` for the table `m`: success,
/// `"OK"`, and every client once, in some order.
pub open spec fn list_response(r: ResponseView, m: Map<u32, ClientView>) -> bool {
    &&& r.success
    &&& r.message == "OK"@
    &&& r.client is None
    &&& r.data matches Some(d) && exists|ks: Seq<u32>|
        is_key_order(ks, m.dom()) && d.len() == ks.len() && forall|i: int|
            0 <= i < ks.len() ==> #[trigger] d[i] == m[ks[i]]
}

/// A response with only a status and a message.
fn plain_response(success: bool, message: String) -> (r: Response)
    ensures
        r@ == plain(success, message@),
{
    Response { success, message, data: None, client: None }
}

/// Answers one request and applies it to the table.
pub fn process_command(command: Command, clients: &mut ClientTable) -> (r: Response)
    ensures
        command@ is List ==> final(clients)@ == old(clients)@ && list_response(r@, old(clients)@),
        !(command@ is List) ==> (r@, final(clients)@) == reply(command@, old(clients)@),
{
    match command {
        Command::List => {
            let all = clients.all();
            let r = Response {
                success: true,
                message: String::from_str("OK"),
                data: Some(all),
                client: None,
            };
            proof {
                let ks = choose|ks: Seq<u32>|
                    is_key_order(ks, clients@.dom()) && all@.len() == ks.len() && forall|i: int|
                        0 <= i < ks.len() ==> #[trigger] all@[i]@ == clients@[ks[i]];
                let d = all@.map_values(|c: Client| c@);
                assert(d.len() == ks.len() && forall|i: int|
                    0 <= i < ks.len() ==> #[trigger] d[i] == clients@[ks[i]]);
            }
            r
        },
        Command::Search { id } => match clients.get(id) {
            Some(c) => Response {
                success: true,
                message: String::from_str("Client found"),
                data: None,
                client: Some(c),
            },
            None => plain_response(false, message_with_number("Client ID ", id as u64, " not found")),
        },
        Command::Add { client } => {
            let id = client.id;
            if clients.contains(id) {
                plain_response(false, message_with_number("Client ID ", id as u64, " already exists"))
            } else {
                clients.put(id, client);
                plain_response(true, message_with_number("Client ID ", id as u64, " added"))
            }
        },
        Command::Remove { id } => {
            if clients.take(id) {
                plain_response(true, message_with_number("Client ID ", id as u64, " removed"))
            } else {
                plain_response(false, message_with_number("Client ID ", id as u64, " not found"))
            }
        },
        Command::Update { id, client } => {
            if clients.contains(id) {
                clients.put(id, client);
                plain_response(true, message_with_number("Client ID ", id as u64, " updated"))
            } else {
                plain_response(false, message_with_number("Client ID ", id as u64, " not found"))
            }
        },
    }
}

} // verus!

verus! {

/// After a client is added under a free id, searching for that id finds it.
pub proof fn law_json_search_finds_added(c: ClientView, m: Map<u32, ClientView>)
    requires
        !m.contains_key(c.id),
    ensures
        reply(CommandView::Add { client: c }, m).0.success,
        reply(CommandView::Search { id: c.id }, reply(CommandView::Add { client: c }, m).1).0.client
            == Some(c),
{
}

/// Removing a client that was just added under a free id gives back the
/// table as it was before.
pub proof fn law_json_remove_undoes_add(c: ClientView, m: Map<u32, ClientView>)
    requires
        !m.contains_key(c.id),
    ensures
        reply(CommandView::Remove { id: c.id }, reply(CommandView::Add { client: c }, m).1).1 == m,
{
    assert(m.insert(c.id, c).remove(c.id) =~= m);
}

/// A refused request (one answered with `success: false`) leaves the table
/// as it was.
pub proof fn law_json_refusal_changes_nothing(cmd: CommandView, m: Map<u32, ClientView>)
    ensures
        !reply(cmd, m).0.success ==> reply(cmd, m).1 == m,
{
}

/// Updating an id that is not in the table is refused.
pub proof fn law_json_update_needs_existing(id: u32, c: ClientView, m: Map<u32, ClientView>)
    requires
        !m.contains_key(id),
    ensures
        !reply(CommandView::Update { id, client: c }, m).0.success,
        reply(CommandView::Update { id, client: c }, m).1 == m,
{
}

/// A successful update leaves exactly the given client under the id and
/// touches no other id, so a search for the id then finds that client.
pub proof fn law_json_update_replaces_client(id: u32, c: ClientView, m: Map<u32, ClientView>)
    requires
        m.contains_key(id),
    ensures
        reply(CommandView::Update { id, client: c }, m) == (
            plain(true, about(id, " updated"@)),
            m.insert(id, c),
        ),
        reply(CommandView::Search { id }, reply(CommandView::Update { id, client: c }, m).1).0.client
            == Some(c),
        forall|k: u32|
            k != id ==> #[trigger] reply(CommandView::Update { id, client: c }, m).1.contains_key(k)
                == m.contains_key(k) && (m.contains_key(k) ==> reply(
                CommandView::Update { id, client: c },
                m,
            ).1[k] == m[k]),
{
}

/// Removing takes out exactly the client under the id, after which a search
/// for it fails; it succeeds exactly when the id was in the table.
pub proof fn law_json_remove_takes_out_client(id: u32, m: Map<u32, ClientView>)
    ensures
        reply(CommandView::Remove { id }, m).1 == m.remove(id),
        reply(CommandView::Remove { id }, m).0.success == m.contains_key(id),
        !reply(CommandView::Search { id }, reply(CommandView::Remove { id }, m).1).0.success,
{
    if !m.contains_key(id) {
        assert(m.remove(id) =~= m);
    }
}

} // verus!
