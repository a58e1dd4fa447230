//! The agent's line protocol: a table of clients driven by text commands
//! (`LIST`, `SEARCH <id>`, `ADD <data>`, `REMOVE <id>`, `UPDATE <id> <data>`).
use std::collections::HashMap;
use vstd::prelude::*;
use vstd::string::StringExecFns;

use crate::maps::{is_key_order, keys_of};
use crate::pattern::{captures, compile, debug_text, groups_view, regex_captures, regex_compiles, str_debug};
use crate::text::{dec, decimal, parse_u16, parse_u32, parse_unsigned, split_words, text_eq, trim, trim_text, words};

verus! {

/// The line format of a client's data; the groups are the id, the IP
/// address, the status, the port and the CID.
pub const CLIENT_PATTERN: &'static str =
    r"Client ID: (\d+) Client IP: ([0-9.]+) Client Status: (\w+) Client Port: (\d+) Client CID: (\d+)";

/// A client known to the agent.
#[derive(Debug, PartialEq, Eq)]
pub struct Client {
    pub id: u32,
    pub ip: String,
    pub status: String,
    pub port: u16,
    pub cid: u32,
}

/// The data of a client as values.
pub struct ClientView {
    pub id: u32,
    pub ip: Seq<char>,
    pub status: Seq<char>,
    pub port: u16,
    pub cid: u32,
}

impl View for Client {
    type V = ClientView;

    open spec fn view(&self) -> ClientView {
        ClientView {
            id: self.id,
            ip: self.ip@,
            status: self.status@,
            port: self.port,
            cid: self.cid,
        }
    }
}

impl Client {
    /// A copy of this client.
    pub fn duplicate(&self) -> (r: Client)
        ensures
            r@ == self@,
    {
        Client {
            id: self.id,
            ip: self.ip.clone(),
            status: self.status.clone(),
            port: self.port,
            cid: self.cid,
        }
    }
}

/// The clients known to the agent, by id.
pub struct ClientTable {
    clients: HashMap<u32, Client>,
}

impl View for ClientTable {
    type V = Map<u32, ClientView>;

    closed spec fn view(&self) -> Map<u32, ClientView> {
        self.clients@.map_values(|c: Client| c@)
    }
}

impl ClientTable {
    /// An empty table.
    pub fn new() -> (r: ClientTable)
        ensures
            r@ == Map::<u32, ClientView>::empty(),
    {
        let r = ClientTable { clients: HashMap::new() };
        assert(r@ =~= Map::<u32, ClientView>::empty());
        r
    }

    /// The client stored under `id`.
    pub fn get(&self, id: u32) -> (r: Option<Client>)
        ensures
            r is Some <==> self@.contains_key(id),
            r matches Some(c) ==> c@ == self@[id],
    {
        broadcast use vstd::std_specs::hash::group_hash_axioms;

        match self.clients.get(&id) {
            Some(c) => Some(c.duplicate()),
            None => None,
        }
    }

    /// Whether a client is stored under `id`.
    pub fn contains(&self, id: u32) -> (r: bool)
        ensures
            r == self@.contains_key(id),
    {
        broadcast use vstd::std_specs::hash::group_hash_axioms;

        self.clients.contains_key(&id)
    }

    /// Stores `c` under `id`, replacing what was there.
    pub fn put(&mut self, id: u32, c: Client)
        ensures
            final(self)@ == old(self)@.insert(id, c@),
    {
        broadcast use vstd::std_specs::hash::group_hash_axioms;

        self.clients.insert(id, c);
        assert(self@ =~= old(self)@.insert(id, c@));
    }

    /// Removes the client stored under `id`; tells whether there was one.
    pub fn take(&mut self, id: u32) -> (r: bool)
        ensures
            r == old(self)@.contains_key(id),
            final(self)@ == old(self)@.remove(id),
    {
        broadcast use vstd::std_specs::hash::group_hash_axioms;

        let r = self.clients.remove(&id).is_some();
        assert(self@ =~= old(self)@.remove(id));
        r
    }

    /// Every client, each once, in the order in which the table yields them.
    pub fn all(&self) -> (r: Vec<Client>)
        ensures
            exists|ks: Seq<u32>|
                is_key_order(ks, self@.dom()) && r@.len() == ks.len() && forall|i: int|
                    0 <= i < ks.len() ==> #[trigger] r@[i]@ == self@[ks[i]],
    {
        broadcast use vstd::std_specs::hash::group_hash_axioms;

        let ks = keys_of(&self.clients);
        let mut r: Vec<Client> = Vec::new();
        let mut i: usize = 0;
        while i < ks.len()
            invariant
                is_key_order(ks@, self.clients@.dom()),
                i <= ks@.len(),
                r@.len() == i,
                forall|j: int| 0 <= j < i ==> #[trigger] r@[j]@ == self@[ks@[j]],
            decreases ks@.len() - i,
        {
            assert(self.clients@.dom().contains(ks@[i as int])) by {
                assert(ks@.to_set().contains(ks@[i as int]));
            }
            let c = self.clients.get(&ks[i]).unwrap();
            r.push(c.duplicate());
            i = i + 1;
        }
        assert(self@.dom() =~= self.clients@.dom());
        r
    }
}

/// The client that a list of capture groups describes: groups 1 to 5 hold the
/// id, IP, status, port and CID; the numbers must parse and fit their types.
pub open spec fn client_from_groups(g: Seq<Option<Seq<char>>>) -> Option<ClientView> {
    if g.len() >= 6 && g[1] is Some && g[2] is Some && g[3] is Some && g[4] is Some
        && g[5] is Some {
        match (
            parse_unsigned(g[1]->0, 0xffff_ffff),
            parse_unsigned(g[4]->0, 0xffff),
            parse_unsigned(g[5]->0, 0xffff_ffff),
        ) {
            (Some(id), Some(port), Some(cid)) => Some(
                ClientView {
                    id: id as u32,
                    ip: g[2]->0,
                    status: g[3]->0,
                    port: port as u16,
                    cid: cid as u32,
                },
            ),
            _ => None,
        }
    } else {
        None
    }
}

/// The client that `data` describes in the format `CLIENT_PATTERN`, if any.
pub open spec fn parsed_client(data: Seq<char>) -> Option<ClientView> {
    if !regex_compiles(CLIENT_PATTERN@) {
        None
    } else {
        match regex_captures(CLIENT_PATTERN@, data) {
            Some(g) => client_from_groups(g),
            None => None,
        }
    }
}

/// Reads the data of a client out of a line in the format `CLIENT_PATTERN`
/// (matched anywhere in `data`). `None` when the line does not match or a
/// number does not fit its type.
pub fn parse_client_data(data: &str) -> (r: Option<Client>)
    ensures
        r is Some <==> parsed_client(data@) is Some,
        r matches Some(c) ==> c@ == parsed_client(data@)->0,
{
    let compiled = match compile(CLIENT_PATTERN) {
        Ok(c) => c,
        Err(_) => return None,
    };
    let groups = match captures(&compiled, data) {
        Some(g) => g,
        None => return None,
    };
    client_from_captures(&groups)
}

/// The client that the captured groups of the client pattern describe: groups
/// 1 to 5 hold the id, the IP address, the status, the port and the CID;
/// `None` when one of them is missing or a number does not parse.
pub fn client_from_captures(groups: &Vec<Option<String>>) -> (r: Option<Client>)
    ensures
        r is Some <==> client_from_groups(groups_view(Some(*groups))->0) is Some,
        r matches Some(c) ==> c@ == client_from_groups(groups_view(Some(*groups))->0)->0,
{
    let ghost g = groups_view(Some(*groups))->0;
    assert(g.len() == groups@.len());
    if groups.len() < 6 {
        return None;
    }
    assert forall|i: int| 0 <= i < 6 implies (#[trigger] g[i] is Some) == (groups@[i] is Some)
        && (groups@[i] matches Some(s) ==> g[i] == Some(s@)) by {
        assert(g[i] == (match groups@[i] {
            Some(s) => Some(s@),
            None => None,
        }));
    }
    let id_text = match &groups[1] {
        Some(s) => s,
        None => return None,
    };
    let ip = match &groups[2] {
        Some(s) => s.clone(),
        None => return None,
    };
    let status = match &groups[3] {
        Some(s) => s.clone(),
        None => return None,
    };
    let port_text = match &groups[4] {
        Some(s) => s,
        None => return None,
    };
    let cid_text = match &groups[5] {
        Some(s) => s,
        None => return None,
    };
    let id = match parse_u32(id_text.as_str()) {
        Some(v) => v,
        None => return None,
    };
    let port = match parse_u16(port_text.as_str()) {
        Some(v) => v,
        None => return None,
    };
    let cid = match parse_u32(cid_text.as_str()) {
        Some(v) => v,
        None => return None,
    };
    Some(Client { id, ip, status, port, cid })
}

/// The `Debug` text of a client, as `{:?}` prints the struct.
pub open spec fn client_debug(c: ClientView) -> Seq<char> {
    "Client { id: "@ + dec(c.id as nat) + ", ip: "@ + str_debug(c.ip) + ", status: "@ + str_debug(
        c.status,
    ) + ", port: "@ + dec(c.port as nat) + ", cid: "@ + dec(c.cid as nat) + " }"@
}

/// The `Debug` text of a client.
pub fn format_client(c: &Client) -> (r: String)
    ensures
        r@ == client_debug(c@),
{
    let mut s = String::from_str("Client { id: ");
    s.append(decimal(c.id as u64).as_str());
    s.append(", ip: ");
    s.append(debug_text(c.ip.as_str()).as_str());
    s.append(", status: ");
    s.append(debug_text(c.status.as_str()).as_str());
    s.append(", port: ");
    s.append(decimal(c.port as u64).as_str());
    s.append(", cid: ");
    s.append(decimal(c.cid as u64).as_str());
    s.append(" }");
    s
}

/// `a`, the decimal text of `n`, then `b`.
pub open spec fn with_number(a: Seq<char>, n: nat, b: Seq<char>) -> Seq<char> {
    a + dec(n) + b
}

/// `a`, the decimal text of `n`, then `b`, as a `String`.
pub fn message_with_number(a: &str, n: u64, b: &str) -> (r: String)
    ensures
        r@ == with_number(a@, n as nat, b@),
{
    let mut s = String::from_str(a);
    s.append(decimal(n).as_str());
    s.append(b);
    s
}

/// The reply to `LIST` on an empty table.
pub open spec fn no_clients_text() -> Seq<char> {
    "No clients registered.\n"@
}

/// The reply to a malformed id.
pub open spec fn invalid_id_text() -> Seq<char> {
    "Invalid Client ID.\n"@
}

/// The reply to client data that does not parse.
pub open spec fn parse_failed_text() -> Seq<char> {
    "Failed to parse client data. Check the format and values.\n"@
}

/// The reply to an unknown command.
pub open spec fn invalid_command_text() -> Seq<char> {
    "Invalid command. Use LIST, SEARCH <ID>, ADD <data>, REMOVE <ID>, or UPDATE <ID> <data>.\n"@
}

/// The reply for an id that is not in the table.
pub open spec fn not_found_text(id: nat) -> Seq<char> {
    with_number("Client ID: "@, id, " not found.\n"@)
}

/// The listing of the clients of `m` in the order `ks`: one `Debug` line each.
pub open spec fn listing(ks: Seq<u32>, m: Map<u32, ClientView>) -> Seq<char>
    decreases ks.len(),
{
    if ks.len() == 0 {
        Seq::empty()
    } else {
        listing(ks.drop_last(), m) + client_debug(m[ks.last()]) + "\n"@
    }
}

/// Whether `w` is the word list of a `LIST` command.
pub open spec fn is_list_words(w: Seq<Seq<char>>) -> bool {
    w.len() == 1 && w[0] == "LIST"@
}

/// Whether `r` is a correct reply to `LIST` for the table `m`.
pub open spec fn list_reply(r: Seq<char>, m: Map<u32, ClientView>) -> bool {
    if m.dom().len() == 0 {
        r == no_clients_text()
    } else {
        exists|ks: Seq<u32>| is_key_order(ks, m.dom()) && r == listing(ks, m)
    }
}

/// The reply to a command other than `LIST`, and the table that follows it.
pub open spec fn command_reply(cmd: Seq<char>, m: Map<u32, ClientView>) -> (
    Seq<char>,
    Map<u32, ClientView>,
) {
    let w = words(cmd);
    if w.len() == 2 && w[0] == "SEARCH"@ {
        match parse_unsigned(w[1], 0xffff_ffff) {
            Some(id) => if m.contains_key(id as u32) {
                (client_debug(m[id as u32]) + "\n"@, m)
            } else {
                (not_found_text(id), m)
            },
            None => (invalid_id_text(), m),
        }
    } else if w.len() >= 1 && w[0] == "ADD"@ {
        match parsed_client(cmd) {
            Some(c) => if m.contains_key(c.id) {
                (with_number("Client ID: "@, c.id as nat, " already exists.\n"@), m)
            } else {
                (
                    with_number("Client ID: "@, c.id as nat, " added successfully.\n"@),
                    m.insert(c.id, c),
                )
            },
            None => (parse_failed_text(), m),
        }
    } else if w.len() == 2 && w[0] == "REMOVE"@ {
        match parse_unsigned(w[1], 0xffff_ffff) {
            Some(id) => if m.contains_key(id as u32) {
                (
                    with_number("Client ID: "@, id, " removed successfully.\n"@),
                    m.remove(id as u32),
                )
            } else {
                (not_found_text(id), m)
            },
            None => (invalid_id_text(), m),
        }
    } else if w.len() >= 2 && w[0] == "UPDATE"@ {
        match parse_unsigned(w[1], 0xffff_ffff) {
            Some(id) => match parsed_client(cmd) {
                Some(c) => if m.contains_key(id as u32) {
                    (
                        with_number("Client ID: "@, id, " updated successfully.\n"@),
                        m.insert(id as u32, c),
                    )
                } else {
                    (not_found_text(id), m)
                },
                None => (parse_failed_text(), m),
            },
            None => (invalid_id_text(), m),
        }
    } else {
        (invalid_command_text(), m)
    }
}

/// The listing reply: the `Debug` line of every client, or the empty-table text.
fn list_clients_text(clients: &ClientTable) -> (r: String)
    ensures
        list_reply(r@, clients@),
{
    let all = clients.all();
    if all.len() == 0 {
        proof {
            let ks = choose|ks: Seq<u32>|
                is_key_order(ks, clients@.dom()) && all@.len() == ks.len() && forall|i: int|
                    0 <= i < ks.len() ==> #[trigger] all@[i]@ == clients@[ks[i]];
        }
        return String::from_str("No clients registered.\n");
    }
    let ghost ks = choose|ks: Seq<u32>|
        is_key_order(ks, clients@.dom()) && all@.len() == ks.len() && forall|i: int|
            0 <= i < ks.len() ==> #[trigger] all@[i]@ == clients@[ks[i]];
    let mut response = String::new();
    let mut i: usize = 0;
    while i < all.len()
        invariant
            all@.len() == ks.len(),
            forall|j: int| 0 <= j < ks.len() ==> #[trigger] all@[j]@ == clients@[ks[j]],
            i <= all@.len(),
            response@ == listing(ks.take(i as int), clients@),
        decreases all@.len() - i,
    {
        response.append(format_client(&all[i]).as_str());
        response.append("\n");
        proof {
            let t = ks.take(i + 1);
            assert(t.drop_last() =~= ks.take(i as int));
            assert(t.last() == ks[i as int]);
        }
        i = i + 1;
    }
    assert(ks.take(ks.len() as int) =~= ks);
    response
}

/// Handles one command and gives the text to send back. `LIST` lists the
/// table; the other commands are described by `command_reply`.
pub fn process_command(command: &str, clients: &mut ClientTable) -> (r: String)
    ensures
        is_list_words(words(command@)) ==> final(clients)@ == old(clients)@ && list_reply(
            r@,
            old(clients)@,
        ),
        !is_list_words(words(command@)) ==> (r@, final(clients)@) == command_reply(
            command@,
            old(clients)@,
        ),
{
    let parts = split_words(command);
    let ghost w = words(command@);
    let n = parts.len();
    if n == 1 && text_eq(parts[0].as_str(), "LIST") {
        return list_clients_text(clients);
    }
    if n == 2 && text_eq(parts[0].as_str(), "SEARCH") {
        return match parse_u32(parts[1].as_str()) {
            Some(id) => match clients.get(id) {
                Some(c) => {
                    let mut s = format_client(&c);
                    s.append("\n");
                    s
                },
                None => message_with_number("Client ID: ", id as u64, " not found.\n"),
            },
            None => String::from_str("Invalid Client ID.\n"),
        };
    }
    if n >= 1 && text_eq(parts[0].as_str(), "ADD") {
        return match parse_client_data(command) {
            Some(client) => {
                let id = client.id;
                if clients.contains(id) {
                    message_with_number("Client ID: ", id as u64, " already exists.\n")
                } else {
                    clients.put(id, client);
                    message_with_number("Client ID: ", id as u64, " added successfully.\n")
                }
            },
            None => String::from_str("Failed to parse client data. Check the format and values.\n"),
        };
    }
    if n == 2 && text_eq(parts[0].as_str(), "REMOVE") {
        return match parse_u32(parts[1].as_str()) {
            Some(id) => if clients.take(id) {
                message_with_number("Client ID: ", id as u64, " removed successfully.\n")
            } else {
                message_with_number("Client ID: ", id as u64, " not found.\n")
            },
            None => String::from_str("Invalid Client ID.\n"),
        };
    }
    if n >= 2 && text_eq(parts[0].as_str(), "UPDATE") {
        return match parse_u32(parts[1].as_str()) {
            Some(id) => match parse_client_data(command) {
                Some(new_client) => if clients.contains(id) {
                    clients.put(id, new_client);
                    message_with_number("Client ID: ", id as u64, " updated successfully.\n")
                } else {
                    message_with_number("Client ID: ", id as u64, " not found.\n")
                },
                None => String::from_str(
                    "Failed to parse client data. Check the format and values.\n",
                ),
            },
            None => String::from_str("Invalid Client ID.\n"),
        };
    }
    String::from_str(
        "Invalid command. Use LIST, SEARCH <ID>, ADD <data>, REMOVE <ID>, or UPDATE <ID> <data>.\n",
    )
}

/// Handles one line received from a connection: the line without its
/// surrounding whitespace is the command.
pub fn handle_line(line: &str, clients: &mut ClientTable) -> (r: String)
    ensures
        is_list_words(words(trim(line@))) ==> final(clients)@ == old(clients)@ && list_reply(
            r@,
            old(clients)@,
        ),
        !is_list_words(words(trim(line@))) ==> (r@, final(clients)@) == command_reply(
            trim(line@),
            old(clients)@,
        ),
{
    let data = trim_text(line);
    process_command(data.as_str(), clients)
}

} // verus!

verus! {

proof fn lemma_command_words_differ()
    ensures
        "ADD"@ != "SEARCH"@,
        "ADD"@ != "LIST"@,
        "REMOVE"@ != "SEARCH"@,
        "REMOVE"@ != "ADD"@,
        "REMOVE"@ != "LIST"@,
        "SEARCH"@ != "LIST"@,
        "UPDATE"@ != "SEARCH"@,
        "UPDATE"@ != "ADD"@,
        "UPDATE"@ != "REMOVE"@,
        "UPDATE"@ != "LIST"@,
{
    reveal_strlit("ADD");
    reveal_strlit("SEARCH");
    reveal_strlit("LIST");
    reveal_strlit("REMOVE");
    reveal_strlit("UPDATE");
    assert("ADD"@.len() != "SEARCH"@.len());
    assert("ADD"@[0] != "LIST"@[0]);
    assert("REMOVE"@[0] != "SEARCH"@[0]);
    assert("REMOVE"@.len() != "ADD"@.len());
    assert("REMOVE"@.len() != "LIST"@.len());
    assert("SEARCH"@.len() != "LIST"@.len());
    assert("UPDATE"@[0] != "SEARCH"@[0]);
    assert("UPDATE"@.len() != "ADD"@.len());
    assert("UPDATE"@[0] != "REMOVE"@[0]);
    assert("UPDATE"@.len() != "LIST"@.len());
}

/// After a client is added under a free id, searching for that id answers
/// with the client's `Debug` line.
pub proof fn law_search_finds_added(add: Seq<char>, search: Seq<char>, m: Map<u32, ClientView>)
    requires
        words(add).len() >= 1,
        words(add)[0] == "ADD"@,
        parsed_client(add) is Some,
        !m.contains_key(parsed_client(add)->0.id),
        words(search).len() == 2,
        words(search)[0] == "SEARCH"@,
        words(search)[1] == dec(parsed_client(add)->0.id as nat),
    ensures
        !is_list_words(words(add)),
        !is_list_words(words(search)),
        command_reply(add, m).1 == m.insert(parsed_client(add)->0.id, parsed_client(add)->0),
        command_reply(search, command_reply(add, m).1).0 == client_debug(parsed_client(add)->0)
            + "\n"@,
{
    lemma_command_words_differ();
    let c = parsed_client(add)->0;
    crate::text::law_decimal_round_trip(c.id as nat, 0xffff_ffff);
}

/// Adding a client under an id that is taken changes nothing and says so.
pub proof fn law_add_taken_id_changes_nothing(add: Seq<char>, m: Map<u32, ClientView>)
    requires
        words(add).len() >= 1,
        words(add)[0] == "ADD"@,
        parsed_client(add) is Some,
        m.contains_key(parsed_client(add)->0.id),
    ensures
        !is_list_words(words(add)),
        command_reply(add, m) == (
            with_number("Client ID: "@, parsed_client(add)->0.id as nat, " already exists.\n"@),
            m,
        ),
{
    lemma_command_words_differ();
}

/// Removing a client that was just added under a free id gives back the
/// table as it was before.
pub proof fn law_remove_undoes_add(add: Seq<char>, remove: Seq<char>, m: Map<u32, ClientView>)
    requires
        words(add).len() >= 1,
        words(add)[0] == "ADD"@,
        parsed_client(add) is Some,
        !m.contains_key(parsed_client(add)->0.id),
        words(remove).len() == 2,
        words(remove)[0] == "REMOVE"@,
        words(remove)[1] == dec(parsed_client(add)->0.id as nat),
    ensures
        !is_list_words(words(remove)),
        command_reply(remove, command_reply(add, m).1).1 == m,
{
    lemma_command_words_differ();
    let c = parsed_client(add)->0;
    crate::text::law_decimal_round_trip(c.id as nat, 0xffff_ffff);
    assert(m.insert(c.id, c).remove(c.id) =~= m);
}

/// Only `ADD`, `REMOVE` and `UPDATE` change the table.
pub proof fn law_other_commands_read_only(cmd: Seq<char>, m: Map<u32, ClientView>)
    requires
        words(cmd).len() == 0 || (words(cmd)[0] != "ADD"@ && words(cmd)[0] != "REMOVE"@
            && words(cmd)[0] != "UPDATE"@),
    ensures
        command_reply(cmd, m).1 == m,
{
}

/// A successful `UPDATE <id> <data>` leaves under `id` exactly the client
/// parsed from the command, all five fields, and touches no other id; a
/// `SEARCH` for `id` then answers with that client's line. Updating an id that
/// is not in the table changes nothing.
pub proof fn law_update_replaces_client(
    update: Seq<char>,
    search: Seq<char>,
    m: Map<u32, ClientView>,
    id: u32,
)
    requires
        words(update).len() >= 2,
        words(update)[0] == "UPDATE"@,
        parse_unsigned(words(update)[1], 0xffff_ffff) == Some(id as nat),
        parsed_client(update) is Some,
        words(search).len() == 2,
        words(search)[0] == "SEARCH"@,
        parse_unsigned(words(search)[1], 0xffff_ffff) == Some(id as nat),
    ensures
        !is_list_words(words(update)),
        !is_list_words(words(search)),
        m.contains_key(id) ==> command_reply(update, m).1 == m.insert(id, parsed_client(update)->0),
        m.contains_key(id) ==> command_reply(update, m).0 == with_number(
            "Client ID: "@,
            id as nat,
            " updated successfully.\n"@,
        ),
        m.contains_key(id) ==> command_reply(search, command_reply(update, m).1).0 == client_debug(
            parsed_client(update)->0,
        ) + "\n"@,
        !m.contains_key(id) ==> command_reply(update, m).1 == m,
        forall|k: u32|
            k != id ==> #[trigger] command_reply(update, m).1.contains_key(k) == m.contains_key(k)
                && (m.contains_key(k) ==> command_reply(update, m).1[k] == m[k]),
{
    lemma_command_words_differ();
}

/// `REMOVE <id>` takes out exactly the client under `id`, after which a
/// `SEARCH` for `id` answers that it is not found; removing an id that is not
/// in the table changes nothing.
pub proof fn law_remove_takes_out_client(
    remove: Seq<char>,
    search: Seq<char>,
    m: Map<u32, ClientView>,
    id: u32,
)
    requires
        words(remove).len() == 2,
        words(remove)[0] == "REMOVE"@,
        parse_unsigned(words(remove)[1], 0xffff_ffff) == Some(id as nat),
        words(search).len() == 2,
        words(search)[0] == "SEARCH"@,
        parse_unsigned(words(search)[1], 0xffff_ffff) == Some(id as nat),
    ensures
        !is_list_words(words(remove)),
        command_reply(remove, m).1 == m.remove(id),
        command_reply(search, command_reply(remove, m).1).0 == not_found_text(id as nat),
{
    lemma_command_words_differ();
    if !m.contains_key(id) {
        assert(m.remove(id) =~= m);
    }
}

} // verus!
