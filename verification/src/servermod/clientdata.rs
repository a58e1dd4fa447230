//! The first server's store of clients.
use std::collections::HashMap;
use vstd::prelude::*;
use vstd::string::StringExecFns;

use crate::maps::{is_key_order, keys_of};
use crate::text::{dec, decimal};

verus! {

/// A client known to the first server.
#[derive(Debug, Clone, PartialEq, Eq)]
pub struct ClientData {
    pub id: u16,
    pub ip: String,
    /// `"active"` or `"inactive"`.
    pub status: String,
    /// The port of the client.
    pub port: String,
    pub cid: String,
}

/// The data of a client as values.
pub struct ClientView {
    pub id: u16,
    pub ip: Seq<char>,
    pub status: Seq<char>,
    pub port: Seq<char>,
    pub cid: Seq<char>,
}

impl View for ClientData {
    type V = ClientView;

    open spec fn view(&self) -> ClientView {
        ClientView {
            id: self.id,
            ip: self.ip@,
            status: self.status@,
            port: self.port@,
            cid: self.cid@,
        }
    }
}

impl ClientData {
    /// A copy of this client.
    pub fn duplicate(&self) -> (r: ClientData)
        ensures
            r@ == self@,
    {
        ClientData {
            id: self.id,
            ip: self.ip.clone(),
            status: self.status.clone(),
            port: self.port.clone(),
            cid: self.cid.clone(),
        }
    }
}

/// The clients of the first server, by id.
pub struct ClientStore {
    clients: HashMap<u16, ClientData>,
}

impl View for ClientStore {
    type V = Map<u16, ClientView>;

    closed spec fn view(&self) -> Map<u16, ClientView> {
        self.clients@.map_values(|c: ClientData| c@)
    }
}

impl ClientStore {
    /// An empty store.
    pub fn new() -> (r: ClientStore)
        ensures
            r@ == Map::<u16, ClientView>::empty(),
    {
        let r = ClientStore { clients: HashMap::new() };
        assert(r@ =~= Map::<u16, ClientView>::empty());
        r
    }
}

/// `c` with its status replaced.
pub open spec fn with_status(c: ClientView, status: Seq<char>) -> ClientView {
    ClientView { status, ..c }
}

/// `c` with its CID replaced.
pub open spec fn with_cid(c: ClientView, cid: Seq<char>) -> ClientView {
    ClientView { cid, ..c }
}

/// Saves `client` under its id, replacing any client saved there.
pub fn save_client(store: &mut ClientStore, client: ClientData)
    ensures
        final(store)@ == old(store)@.insert(client.id, client@),
{
    broadcast use vstd::std_specs::hash::group_hash_axioms;

    let id = client.id;
    store.clients.insert(id, client);
    assert(store@ =~= old(store)@.insert(client.id, client@));
}

/// A copy of the client saved under `id`.
pub fn find_client_by_id(store: &ClientStore, id: u16) -> (r: Option<ClientData>)
    ensures
        r is Some <==> store@.contains_key(id),
        r matches Some(c) ==> c@ == store@[id],
{
    broadcast use vstd::std_specs::hash::group_hash_axioms;

    match store.clients.get(&id) {
        Some(c) => Some(c.duplicate()),
        None => None,
    }
}

/// Sets the status of the client saved under `id`; tells whether there was one.
pub fn update_status_by_id(store: &mut ClientStore, id: u16, new_status: String) -> (r: bool)
    ensures
        r == old(store)@.contains_key(id),
        r ==> final(store)@ == old(store)@.insert(id, with_status(old(store)@[id], new_status@)),
        !r ==> final(store)@ == old(store)@,
{
    broadcast use vstd::std_specs::hash::group_hash_axioms;

    match store.clients.get(&id) {
        Some(c) => {
            let mut updated = c.duplicate();
            updated.status = new_status;
            store.clients.insert(id, updated);
            assert(store@ =~= old(store)@.insert(id, with_status(old(store)@[id], new_status@)));
            true
        },
        None => false,
    }
}

/// Sets the CID of the client saved under `id`; tells whether there was one.
pub fn update_cid_by_id(store: &mut ClientStore, id: u16, new_cid: String) -> (r: bool)
    ensures
        r == old(store)@.contains_key(id),
        r ==> final(store)@ == old(store)@.insert(id, with_cid(old(store)@[id], new_cid@)),
        !r ==> final(store)@ == old(store)@,
{
    broadcast use vstd::std_specs::hash::group_hash_axioms;

    match store.clients.get(&id) {
        Some(c) => {
            let mut updated = c.duplicate();
            updated.cid = new_cid;
            store.clients.insert(id, updated);
            assert(store@ =~= old(store)@.insert(id, with_cid(old(store)@[id], new_cid@)));
            true
        },
        None => false,
    }
}

/// Every client, each once, in the order in which the store yields them
/// (the program prints them).
pub fn list_all_clients(store: &ClientStore) -> (r: Vec<ClientData>)
    ensures
        exists|ks: Seq<u16>|
            is_key_order(ks, store@.dom()) && r@.len() == ks.len() && forall|i: int|
                0 <= i < ks.len() ==> #[trigger] r@[i]@ == store@[ks[i]],
{
    broadcast use vstd::std_specs::hash::group_hash_axioms;

    let ks = keys_of(&store.clients);
    let mut r: Vec<ClientData> = Vec::new();
    let mut i: usize = 0;
    while i < ks.len()
        invariant
            is_key_order(ks@, store.clients@.dom()),
            i <= ks@.len(),
            r@.len() == i,
            forall|j: int| 0 <= j < i ==> #[trigger] r@[j]@ == store@[ks@[j]],
        decreases ks@.len() - i,
    {
        assert(store.clients@.dom().contains(ks@[i as int])) by {
            assert(ks@.to_set().contains(ks@[i as int]));
        }
        let c = store.clients.get(&ks[i]).unwrap();
        r.push(c.duplicate());
        i = i + 1;
    }
    assert(store@.dom() =~= store.clients@.dom());
    r
}

/// The line that lists one client.
pub open spec fn client_line(c: ClientView) -> Seq<char> {
    "ID: "@ + dec(c.id as nat) + ", IP: "@ + c.ip + ", Status: "@ + c.status + " Port2: "@ + c.port
        + " cid "@ + c.cid + "\n"@
}

/// The lines of the clients of `m` in the order `ks`.
pub open spec fn client_lines(ks: Seq<u16>, m: Map<u16, ClientView>) -> Seq<char>
    decreases ks.len(),
{
    if ks.len() == 0 {
        Seq::empty()
    } else {
        client_lines(ks.drop_last(), m) + client_line(m[ks.last()])
    }
}

/// The heading of the listing: it says when there is no client.
pub open spec fn listing_heading(m: Map<u16, ClientView>) -> Seq<char> {
    if m.dom().len() == 0 {
        "Connected clients: No clients connected.\n"@
    } else {
        "Connected clients:\n"@
    }
}

/// The listing of all clients as text: a heading, then one line per client.
pub fn list_all_clients2(store: &ClientStore) -> (r: String)
    ensures
        exists|ks: Seq<u16>|
            is_key_order(ks, store@.dom()) && r@ == listing_heading(store@) + client_lines(
                ks,
                store@,
            ),
{
    let all = list_all_clients(store);
    let ghost ks = choose|ks: Seq<u16>|
        is_key_order(ks, store@.dom()) && all@.len() == ks.len() && forall|i: int|
            0 <= i < ks.len() ==> #[trigger] all@[i]@ == store@[ks[i]];
    let mut result = if all.len() == 0 {
        String::from_str("Connected clients: No clients connected.\n")
    } else {
        String::from_str("Connected clients:\n")
    };
    let mut i: usize = 0;
    while i < all.len()
        invariant
            all@.len() == ks.len(),
            ks.len() == store@.dom().len(),
            forall|j: int| 0 <= j < ks.len() ==> #[trigger] all@[j]@ == store@[ks[j]],
            i <= all@.len(),
            result@ == listing_heading(store@) + client_lines(ks.take(i as int), store@),
        decreases all@.len() - i,
    {
        let c = &all[i];
        result.append("ID: ");
        result.append(decimal(c.id as u64).as_str());
        result.append(", IP: ");
        result.append(c.ip.as_str());
        result.append(", Status: ");
        result.append(c.status.as_str());
        result.append(" Port2: ");
        result.append(c.port.as_str());
        result.append(" cid ");
        result.append(c.cid.as_str());
        result.append("\n");
        proof {
            let t = ks.take(i + 1);
            assert(t.drop_last() =~= ks.take(i as int));
            assert(t.last() == ks[i as int]);
            assert(all@[i as int]@ == store@[ks[i as int]]);
            assert(result@ =~= listing_heading(store@) + client_lines(t, store@));
        }
        i = i + 1;
    }
    assert(ks.take(ks.len() as int) =~= ks);
    result
}

/// Reading a client back after saving it gives what was saved.
pub proof fn law_store_find_after_save(m: Map<u16, ClientView>, c: ClientView)
    ensures
        m.insert(c.id, c).contains_key(c.id),
        m.insert(c.id, c)[c.id] == c,
{
}

/// Changing a client's status touches nothing else: the client keeps its id,
/// IP, port and CID, and every other client is unchanged.
pub proof fn law_status_update_is_local(
    m: Map<u16, ClientView>,
    id: u16,
    status: Seq<char>,
    other: u16,
)
    requires
        m.contains_key(id),
        other != id,
    ensures
        ({
            let n = m.insert(id, with_status(m[id], status));
            &&& n[id].id == m[id].id && n[id].ip == m[id].ip && n[id].port == m[id].port
                && n[id].cid == m[id].cid && n[id].status == status
            &&& n.contains_key(other) == m.contains_key(other)
            &&& m.contains_key(other) ==> n[other] == m[other]
            &&& n.dom() == m.dom()
        }),
{
    let n = m.insert(id, with_status(m[id], status));
    assert(n.dom() =~= m.dom());
}

} // verus!
