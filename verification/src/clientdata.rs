//! The server's registry of connected clients. Each client carries the
//! sending end of the channel that feeds its connection's writer.
use std::collections::HashMap;
use std::sync::mpsc::Sender;
use vstd::prelude::*;
use vstd::string::StringExecFns;

use crate::maps::{is_key_order, keys_of};
use crate::text::{dec, decimal};

verus! {

/// `std::sync::mpsc::Sender`, the sending end of a channel; opaque here.
#[verifier::external_type_specification]
#[verifier::external_body]
#[verifier::reject_recursive_types(T)]
pub struct ExSender<T>(Sender<T>);

/// Sends `message` into a channel (`Sender::send`) and tells whether the
/// channel took it. Nothing is stated of the outcome: it depends on whether
/// the receiving end is still alive.
#[verifier::external_body]
pub(crate) fn send_message(sender: &Sender<String>, message: String) -> (r: bool) {
    sender.send(message).is_ok()
}

/// Another handle to the same channel (`Sender::clone`). Nothing is stated
/// of the handle: it is opaque here.
#[verifier::external_body]
pub(crate) fn clone_sender(sender: &Sender<String>) -> (r: Sender<String>) {
    sender.clone()
}

/// The sending end of the channel that feeds one connection's writer,
/// together with the number that the program gave that channel when it made
/// it. Copies keep the number and send into the same channel.
#[derive(Debug)]
pub struct WriterChannel {
    id: u64,
    sender: Sender<String>,
}

impl Clone for WriterChannel {
    /// Another handle to the same channel.
    fn clone(&self) -> (r: WriterChannel)
        ensures
            r@ == self@,
    {
        self.duplicate()
    }
}

impl View for WriterChannel {
    type V = u64;

    /// The number of the channel.
    closed spec fn view(&self) -> u64 {
        self.id
    }
}

impl WriterChannel {
    /// The channel numbered `id` whose sending end is `sender`.
    pub fn new(id: u64, sender: Sender<String>) -> (r: WriterChannel)
        ensures
            r@ == id,
    {
        WriterChannel { id, sender }
    }

    /// The number of the channel.
    pub fn id(&self) -> (r: u64)
        ensures
            r == self@,
    {
        self.id
    }

    /// Another handle to the same channel.
    pub fn duplicate(&self) -> (r: WriterChannel)
        ensures
            r@ == self@,
    {
        WriterChannel { id: self.id, sender: clone_sender(&self.sender) }
    }

    /// The sending end of the channel.
    pub fn sender(&self) -> &Sender<String> {
        &self.sender
    }
}

/// A connected client.
#[derive(Debug, Clone)]
pub struct ClientData {
    pub id: u16,
    pub ip: String,
    /// `"active"` or `"inactive"`.
    pub status: String,
    pub port: String,
    pub cid: String,
    /// Feeds the writer of the client's connection.
    pub sender_tcp_writer: WriterChannel,
}

/// The data of a client as values; `channel` is the number of its writer channel.
pub struct ClientRecord {
    pub id: u16,
    pub ip: Seq<char>,
    pub status: Seq<char>,
    pub port: Seq<char>,
    pub cid: Seq<char>,
    pub channel: u64,
}

impl View for ClientData {
    type V = ClientRecord;

    open spec fn view(&self) -> ClientRecord {
        ClientRecord {
            id: self.id,
            ip: self.ip@,
            status: self.status@,
            port: self.port@,
            cid: self.cid@,
            channel: self.sender_tcp_writer@,
        }
    }
}

/// The clients of the server, by id.
pub struct ClientRegistry {
    clients: HashMap<u16, ClientData>,
    /// For each id, the messages handed to its client's writer channel since
    /// the client was saved.
    log: Ghost<Map<u16, Seq<Seq<char>>>>,
}

impl View for ClientRegistry {
    type V = Map<u16, ClientRecord>;

    closed spec fn view(&self) -> Map<u16, ClientRecord> {
        self.clients@.map_values(|c: ClientData| c@)
    }
}

impl ClientRegistry {
    /// Every client is stored under its own id.
    #[verifier::type_invariant]
    spec fn keyed_by_id(&self) -> bool {
        forall|k: u16| #[trigger] self.clients@.contains_key(k) ==> self.clients@[k].id == k
    }

    /// The messages that the registry has handed to the writer channel of
    /// each registered client, in order, since that client was saved.
    pub closed spec fn handed(&self) -> Map<u16, Seq<Seq<char>>> {
        Map::new(
            |k: u16| self.clients@.contains_key(k),
            |k: u16|
                if self.log@.contains_key(k) {
                    self.log@[k]
                } else {
                    Seq::empty()
                },
        )
    }

    /// An empty registry.
    pub fn new() -> (r: ClientRegistry)
        ensures
            r@ == Map::<u16, ClientRecord>::empty(),
            r.handed() == Map::<u16, Seq<Seq<char>>>::empty(),
    {
        let r = ClientRegistry { clients: HashMap::new(), log: Ghost(Map::empty()) };
        assert(r@ =~= Map::<u16, ClientRecord>::empty());
        assert(r.handed() =~= Map::<u16, Seq<Seq<char>>>::empty());
        r
    }
}

/// The registry after saving `c`: its entry is replaced or added.
pub open spec fn saved(m: Map<u16, ClientRecord>, c: ClientRecord) -> Map<u16, ClientRecord> {
    m.insert(c.id, c)
}

/// Whether every client of `m` is stored under its own id.
pub open spec fn keyed_by_id(m: Map<u16, ClientRecord>) -> bool {
    forall|k: u16| #[trigger] m.contains_key(k) ==> m[k].id == k
}

/// The client stored under `id`, if any.
pub open spec fn lookup(m: Map<u16, ClientRecord>, id: u16) -> Option<ClientRecord> {
    if m.contains_key(id) {
        Some(m[id])
    } else {
        None
    }
}

/// What a send on a channel whose receiving end is gone fails with (the text
/// of std's `SendError`).
pub open spec fn closed_channel_text() -> Seq<char> {
    "sending on a closed channel"@
}

/// The text of a failed send to the client `id`.
pub open spec fn send_failure(id: u16) -> Seq<char> {
    "Failed to send message to client "@ + dec(id as nat) + ": "@ + closed_channel_text()
}

/// A copy of `c`, holding another handle to its channel.
fn copy_client(c: &ClientData) -> (r: ClientData)
    ensures
        r@ == c@,
{
    ClientData {
        id: c.id,
        ip: c.ip.clone(),
        status: c.status.clone(),
        port: c.port.clone(),
        cid: c.cid.clone(),
        sender_tcp_writer: c.sender_tcp_writer.duplicate(),
    }
}

impl ClientData {
    /// Saves `client` under its id, replacing any client saved there; nothing
    /// has been handed to the saved client yet.
    pub fn save(registry: &mut ClientRegistry, client: ClientData)
        ensures
            final(registry)@ == saved(old(registry)@, client@),
            final(registry).handed() == old(registry).handed().insert(client.id, Seq::empty()),
    {
        broadcast use vstd::std_specs::hash::group_hash_axioms;

        proof {
            use_type_invariant(&*registry);
        }
        let id = client.id;
        let mut clients = HashMap::new();
        std::mem::swap(&mut clients, &mut registry.clients);
        clients.insert(id, client);
        registry.clients = clients;
        registry.log = Ghost(registry.log@.remove(id));
        assert(registry@ =~= saved(old(registry)@, client@));
        assert(registry.handed() =~= old(registry).handed().insert(client.id, Seq::empty()));
    }

    /// The id of the client saved under `id`.
    pub fn read_id(registry: &ClientRegistry, id: u16) -> (r: Option<u16>)
        ensures
            r == (match lookup(registry@, id) {
                Some(c) => Some(c.id),
                None => None,
            }),
            r is Some ==> r == Some(id),
    {
        proof {
            use_type_invariant(registry);
        }
        broadcast use vstd::std_specs::hash::group_hash_axioms;

        match registry.clients.get(&id) {
            Some(c) => Some(c.id),
            None => None,
        }
    }

    /// The IP address of the client saved under `id`.
    pub fn read_ip(registry: &ClientRegistry, id: u16) -> (r: Option<String>)
        ensures
            r is Some <==> registry@.contains_key(id),
            r matches Some(s) ==> s@ == registry@[id].ip,
    {
        broadcast use vstd::std_specs::hash::group_hash_axioms;

        match registry.clients.get(&id) {
            Some(c) => Some(c.ip.clone()),
            None => None,
        }
    }

    /// The status of the client saved under `id`.
    pub fn read_status(registry: &ClientRegistry, id: u16) -> (r: Option<String>)
        ensures
            r is Some <==> registry@.contains_key(id),
            r matches Some(s) ==> s@ == registry@[id].status,
    {
        broadcast use vstd::std_specs::hash::group_hash_axioms;

        match registry.clients.get(&id) {
            Some(c) => Some(c.status.clone()),
            None => None,
        }
    }

    /// The CID of the client saved under `id`.
    pub fn read_cid(registry: &ClientRegistry, id: u16) -> (r: Option<String>)
        ensures
            r is Some <==> registry@.contains_key(id),
            r matches Some(s) ==> s@ == registry@[id].cid,
    {
        broadcast use vstd::std_specs::hash::group_hash_axioms;

        match registry.clients.get(&id) {
            Some(c) => Some(c.cid.clone()),
            None => None,
        }
    }

    /// Every client, each once, in the order in which the registry yields them;
    /// no two have the same id.
    pub fn list_clients(registry: &ClientRegistry) -> (r: Vec<ClientData>)
        ensures
            keyed_by_id(registry@),
            exists|ks: Seq<u16>|
                is_key_order(ks, registry@.dom()) && r@.len() == ks.len() && forall|i: int|
                    0 <= i < ks.len() ==> #[trigger] r@[i]@ == registry@[ks[i]],
            forall|i: int, j: int| 0 <= i < j < r@.len() ==> r@[i].id != r@[j].id,
    {
        proof {
            use_type_invariant(registry);
        }
        broadcast use vstd::std_specs::hash::group_hash_axioms;

        let ks = keys_of(&registry.clients);
        let mut r: Vec<ClientData> = Vec::new();
        let mut i: usize = 0;
        while i < ks.len()
            invariant
                is_key_order(ks@, registry.clients@.dom()),
                i <= ks@.len(),
                r@.len() == i,
                forall|j: int| 0 <= j < i ==> #[trigger] r@[j]@ == registry@[ks@[j]],
            decreases ks@.len() - i,
        {
            assert(registry.clients@.dom().contains(ks@[i as int])) by {
                assert(ks@.to_set().contains(ks@[i as int]));
            }
            let c = registry.clients.get(&ks[i]).unwrap();
            r.push(copy_client(c));
            i = i + 1;
        }
        assert(registry@.dom() =~= registry.clients@.dom());
        assert(keyed_by_id(registry@)) by {
            assert forall|k: u16| #[trigger] registry@.contains_key(k) implies registry@[k].id == k by {
                assert(registry.clients@.contains_key(k));
            }
        }
        assert forall|i: int, j: int| 0 <= i < j < r@.len() implies r@[i].id != r@[j].id by {
            assert(r@[i]@ == registry@[ks@[i]]);
            assert(r@[j]@ == registry@[ks@[j]]);
            assert(ks@.to_set().contains(ks@[i]));
            assert(ks@.to_set().contains(ks@[j]));
        }
        r
    }

    /// A copy of the client saved under `id`.
    pub fn find_client_by_id(registry: &ClientRegistry, id: u16) -> (r: Option<ClientData>)
        ensures
            r is Some <==> registry@.contains_key(id),
            r matches Some(c) ==> lookup(registry@, id) == Some(c@) && c.id == id,
    {
        proof {
            use_type_invariant(registry);
        }
        broadcast use vstd::std_specs::hash::group_hash_axioms;

        match registry.clients.get(&id) {
            Some(c) => Some(copy_client(c)),
            None => None,
        }
    }

    /// Hands `message` to the writer channel of the client saved under `k`
    /// and records it; tells whether the channel took it (it does not once
    /// its receiving end is gone).
    fn hand(registry: &mut ClientRegistry, k: u16, message: String) -> (r: bool)
        requires
            old(registry)@.contains_key(k),
        ensures
            final(registry)@ == old(registry)@,
            final(registry).handed() == old(registry).handed().insert(
                k,
                old(registry).handed()[k].push(message@),
            ),
    {
        broadcast use vstd::std_specs::hash::group_hash_axioms;

        proof {
            use_type_invariant(&*registry);
        }
        let ghost m = message@;
        let ghost before = registry.handed();
        let c = registry.clients.get(&k).unwrap();
        let ok = send_message(&c.sender_tcp_writer.sender, message);
        registry.log = Ghost(registry.log@.insert(k, before[k].push(m)));
        assert(registry.handed() =~= before.insert(k, before[k].push(m)));
        ok
    }

    /// Sends `message` to the writer of the client saved under `id`, if there
    /// is one; a failed send is ignored. No other client is handed anything,
    /// and the clients stay as they were.
    pub fn send_client_msg_by_id(registry: &mut ClientRegistry, id: u16, message: String)
        ensures
            final(registry)@ == old(registry)@,
            final(registry).handed() == (if old(registry)@.contains_key(id) {
                old(registry).handed().insert(id, old(registry).handed()[id].push(message@))
            } else {
                old(registry).handed()
            }),
    {
        broadcast use vstd::std_specs::hash::group_hash_axioms;

        if registry.clients.contains_key(&id) {
            let _ = ClientData::hand(registry, id, message);
        }
    }

    /// Another handle to the writer channel of the client saved under `id`.
    pub fn read_sender_tcp_writer(registry: &ClientRegistry, id: u16) -> (r: Option<WriterChannel>)
        ensures
            r is Some <==> registry@.contains_key(id),
            r matches Some(w) ==> w@ == registry@[id].channel,
    {
        broadcast use vstd::std_specs::hash::group_hash_axioms;

        match registry.clients.get(&id) {
            Some(c) => Some(c.sender_tcp_writer.duplicate()),
            None => None,
        }
    }

    /// Sends `message` to every client, once each, with one result per client
    /// in the order in which the registry yields them; a failure names the
    /// client. The clients stay as they were, those whose send failed too.
    pub fn round_robin(registry: &mut ClientRegistry, message: String) -> (r: Vec<Result<(), String>>)
        ensures
            final(registry)@ == old(registry)@,
            final(registry).handed() == old(registry).handed().map_values(
                |h: Seq<Seq<char>>| h.push(message@),
            ),
            exists|ks: Seq<u16>|
                is_key_order(ks, old(registry)@.dom()) && r@.len() == ks.len() && forall|i: int|
                    0 <= i < ks.len() ==> (#[trigger] r@[i] matches Err(e) ==> e@ == send_failure(
                        ks[i],
                    )),
    {
        broadcast use vstd::std_specs::hash::group_hash_axioms;

        let ks = keys_of(&registry.clients);
        let ghost dom = old(registry)@.dom();
        let ghost start = old(registry).handed();
        assert(dom =~= registry.clients@.dom());
        let mut results: Vec<Result<(), String>> = Vec::new();
        let mut i: usize = 0;
        while i < ks.len()
            invariant
                is_key_order(ks@, dom),
                dom == old(registry)@.dom(),
                start == old(registry).handed(),
                registry@ == old(registry)@,
                registry.handed().dom() == start.dom(),
                forall|k: u16|
                    #[trigger] start.contains_key(k) ==> registry.handed()[k] == (if ks@.take(
                        i as int,
                    ).contains(k) {
                        start[k].push(message@)
                    } else {
                        start[k]
                    }),
                i <= ks@.len(),
                results@.len() == i,
                forall|j: int|
                    0 <= j < i ==> (#[trigger] results@[j] matches Err(e) ==> e@ == send_failure(
                        ks@[j],
                    )),
            decreases ks@.len() - i,
        {
            let k = ks[i];
            assert(dom.contains(k)) by {
                assert(ks@.to_set().contains(ks@[i as int]));
            }
            let ghost mid = registry.handed();
            let sent = ClientData::hand(registry, k, message.clone());
            proof {
                let t0 = ks@.take(i as int);
                let t1 = ks@.take(i + 1);
                assert(t1 =~= t0.push(k));
                assert(!t0.contains(k)) by {
                    if t0.contains(k) {
                        let j = choose|j: int| 0 <= j < t0.len() && #[trigger] t0[j] == k;
                        assert(ks@[j] == ks@[i as int]);
                    }
                }
                assert forall|x: u16| #[trigger] start.contains_key(x) implies registry.handed()[x]
                    == (if t1.contains(x) {
                    start[x].push(message@)
                } else {
                    start[x]
                }) by {
                    if x == k {
                        assert(t1[i as int] == k);
                    } else {
                        if t1.contains(x) {
                            let j = choose|j: int| 0 <= j < t1.len() && #[trigger] t1[j] == x;
                            assert(t0[j] == x);
                        }
                        if t0.contains(x) {
                            let j = choose|j: int| 0 <= j < t0.len() && #[trigger] t0[j] == x;
                            assert(t1[j] == x);
                        }
                    }
                }
            }
            let result = if sent {
                Ok(())
            } else {
                let mut text = String::from_str("Failed to send message to client ");
                text.append(decimal(k as u64).as_str());
                text.append(": sending on a closed channel");
                proof {
                    reveal_strlit("Failed to send message to client ");
                    reveal_strlit(": sending on a closed channel");
                    reveal_strlit(": ");
                    reveal_strlit("sending on a closed channel");
                }
                assert(text@ == send_failure(ks@[i as int]));
                Err(text)
            };
            results.push(result);
            i = i + 1;
        }
        proof {
            assert(ks@.take(ks@.len() as int) =~= ks@);
            assert forall|k: u16| #[trigger] start.contains_key(k) implies ks@.contains(k) by {
                assert(ks@.to_set().contains(k));
            }
            assert(registry.handed() =~= start.map_values(|h: Seq<Seq<char>>| h.push(message@)));
        }
        results
    }

    /// Removes the client saved under `id`; tells whether there was one.
    pub fn delete_client_by_id(registry: &mut ClientRegistry, id: u16) -> (r: bool)
        ensures
            r == old(registry)@.contains_key(id),
            final(registry)@ == old(registry)@.remove(id),
            final(registry).handed() == old(registry).handed().remove(id),
    {
        broadcast use vstd::std_specs::hash::group_hash_axioms;

        proof {
            use_type_invariant(&*registry);
        }
        let mut clients = HashMap::new();
        std::mem::swap(&mut clients, &mut registry.clients);
        let r = clients.remove(&id).is_some();
        registry.clients = clients;
        assert(registry@ =~= old(registry)@.remove(id));
        assert(registry.handed() =~= old(registry).handed().remove(id));
        r
    }
}

/// Reading a client back after saving it gives what was saved.
pub proof fn law_find_after_save(m: Map<u16, ClientRecord>, c: ClientRecord)
    ensures
        lookup(saved(m, c), c.id) == Some(c),
{
}

/// After deleting `id`, no client is found under `id`, and the other
/// clients are untouched.
pub proof fn law_find_after_delete(m: Map<u16, ClientRecord>, id: u16, other: u16)
    requires
        other != id,
    ensures
        lookup(m.remove(id), id) is None,
        lookup(m.remove(id), other) == lookup(m, other),
{
}

/// Saving a client and deleting it again leaves the registry as it was
/// before, when the id was free.
pub proof fn law_delete_undoes_save(m: Map<u16, ClientRecord>, c: ClientRecord)
    requires
        !m.contains_key(c.id),
    ensures
        saved(m, c).remove(c.id) == m,
{
    assert(saved(m, c).remove(c.id) =~= m);
}

/// A change to the registry: saving a client or deleting an id.
pub enum RegistryChange {
    Save(ClientRecord),
    Delete(u16),
}

/// The id that a change touches.
pub open spec fn changed_id(op: RegistryChange) -> u16 {
    match op {
        RegistryChange::Save(c) => c.id,
        RegistryChange::Delete(id) => id,
    }
}

/// The registry after the changes `ops`, first to last.
pub open spec fn after_changes(m: Map<u16, ClientRecord>, ops: Seq<RegistryChange>) -> Map<
    u16,
    ClientRecord,
>
    decreases ops.len(),
{
    if ops.len() == 0 {
        m
    } else {
        let m1 = match ops[0] {
            RegistryChange::Save(c) => saved(m, c),
            RegistryChange::Delete(id) => m.remove(id),
        };
        after_changes(m1, ops.drop_first())
    }
}

/// A saved client is read back as it was saved, whatever other ids are saved
/// or deleted after it.
pub proof fn law_find_after_save_survives_other_ids(
    m: Map<u16, ClientRecord>,
    c: ClientRecord,
    ops: Seq<RegistryChange>,
)
    requires
        forall|i: int| 0 <= i < ops.len() ==> changed_id(#[trigger] ops[i]) != c.id,
    ensures
        lookup(after_changes(saved(m, c), ops), c.id) == Some(c),
{
    lemma_other_changes_keep(saved(m, c), c.id, ops);
}

/// Changes to other ids leave the entry under `id` as it was.
proof fn lemma_other_changes_keep(m: Map<u16, ClientRecord>, id: u16, ops: Seq<RegistryChange>)
    requires
        forall|i: int| 0 <= i < ops.len() ==> changed_id(#[trigger] ops[i]) != id,
    ensures
        lookup(after_changes(m, ops), id) == lookup(m, id),
    decreases ops.len(),
{
    if ops.len() > 0 {
        let m1 = match ops[0] {
            RegistryChange::Save(c) => saved(m, c),
            RegistryChange::Delete(k) => m.remove(k),
        };
        assert(changed_id(ops[0]) != id);
        assert forall|i: int| 0 <= i < ops.drop_first().len() implies changed_id(
            #[trigger] ops.drop_first()[i],
        ) != id by {
            assert(ops.drop_first()[i] == ops[i + 1]);
        }
        lemma_other_changes_keep(m1, id, ops.drop_first());
        assert(lookup(m1, id) == lookup(m, id));
    }
}

/// Saving keeps the client's writer channel: the one saved under its id is
/// the one it carried.
pub proof fn law_save_keeps_channel(m: Map<u16, ClientRecord>, c: ClientRecord)
    ensures
        saved(m, c)[c.id].channel == c.channel,
{
}

} // verus!
