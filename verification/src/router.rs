//! The routing table of the message bus: which connection a peer is reached by.

use crate::msg_types;
use crate::split::{lemma_texts_push, texts};
use crate::table::{without_key, Table};
use crate::text::str_eq;
use vstd::prelude::*;
use vstd::string::*;

verus! {

/// Where a message goes.
pub enum Route {
    /// To the kernel.
    Boot,
    /// To the peer on this connection.
    Peer(u64),
    /// Nowhere, for this reason.
    Unreachable(String),
}

/// The content of a `Route`.
pub ghost enum Routed {
    Boot,
    Peer(u64),
    Unreachable(Seq<char>),
}

impl View for Route {
    type V = Routed;

    open spec fn view(&self) -> Routed {
        match self {
            Route::Boot => Routed::Boot,
            Route::Peer(c) => Routed::Peer(*c),
            Route::Unreachable(e) => Routed::Unreachable(e@),
        }
    }
}

/// The peers after one was registered; a new connection takes the place of an
/// old one.
pub open spec fn registered(
    peers: Map<Seq<char>, u64>,
    peer: Seq<char>,
    connection: u64,
) -> Map<Seq<char>, u64> {
    peers.insert(peer, connection)
}

/// The peers after one was removed.
pub open spec fn removed(peers: Map<Seq<char>, u64>, peer: Seq<char>) -> Map<Seq<char>, u64> {
    peers.remove(peer)
}

/// The connection by which a peer is reached, where it is connected.
pub open spec fn reached_by(peers: Map<Seq<char>, u64>, peer: Seq<char>) -> Option<u64> {
    if peers.contains_key(peer) {
        Some(peers[peer])
    } else {
        None
    }
}

/// What is said of a peer that is not connected.
pub open spec fn not_connected(peer: Seq<char>) -> Seq<char> {
    "Peer '"@ + peer + "' not connected"@
}

/// Where a message goes.
pub open spec fn routed(peers: Map<Seq<char>, u64>, dest: Seq<char>) -> Routed {
    if dest == "boot"@ {
        Routed::Boot
    } else {
        match reached_by(peers, dest) {
            Some(c) => Routed::Peer(c),
            None => Routed::Unreachable(not_connected(dest)),
        }
    }
}

/// Who a new connection belongs to, given the type of its first message and
/// the sender that it names. Only a Hello opens a connection.
pub fn identify_peer(msg_type: &str, from: &str) -> (r: Result<String, String>)
    ensures
        r is Ok <==> msg_type@ == "Hello"@,
        r is Ok ==> r->Ok_0@ == from@,
        r is Err ==> r->Err_0@ == "Expected Hello as first message, got '"@ + msg_type@ + "'"@,
{
    if str_eq(msg_type, msg_types::HELLO) {
        Ok(from.to_owned())
    } else {
        let mut m = "Expected Hello as first message, got '".to_owned();
        m.append(msg_type);
        m.append("'");
        Err(m)
    }
}

/// The connected peers and the numbers of their connections.
pub struct RouterTable {
    peers: Table<u64>,
}

impl View for RouterTable {
    type V = Map<Seq<char>, u64>;

    closed spec fn view(&self) -> Map<Seq<char>, u64> {
        self.peers@
    }
}

/// The connections of the given peers.
pub open spec fn connections(peers: Map<Seq<char>, u64>, keys: Seq<Seq<char>>) -> Seq<u64> {
    Seq::new(keys.len(), |i: int| peers[keys[i]])
}

impl RouterTable {
    pub closed spec fn wf(self) -> bool {
        self.peers.wf()
    }

    /// The connected peers, in the order in which they connected.
    pub closed spec fn names(self) -> Seq<Seq<char>> {
        self.peers.keys()
    }

    /// The peers that are listed are those that are connected, each once.
    pub proof fn law_peers_are_listed_once(self)
        requires
            self.wf(),
        ensures
            self.names().no_duplicates(),
            forall|k: Seq<char>| #[trigger] self@.contains_key(k) <==> self.names().contains(k),
    {
        self.peers.lemma_keys();
    }

    pub fn new() -> (r: RouterTable)
        ensures
            r.wf(),
            r@ == Map::<Seq<char>, u64>::empty(),
            r.names() == Seq::<Seq<char>>::empty(),
    {
        RouterTable { peers: Table::new() }
    }

    /// Registers a peer; a new connection takes the place of an old one.
    pub fn register_peer(&mut self, identity: &str, connection: u64)
        requires
            old(self).wf(),
        ensures
            final(self).wf(),
            final(self)@ == registered(old(self)@, identity@, connection),
            final(self).names() == if old(self)@.contains_key(identity@) {
                old(self).names()
            } else {
                old(self).names().push(identity@)
            },
    {
        self.peers.insert(identity, connection);
    }

    /// Removes a peer; returns whether it was connected.
    pub fn remove_peer(&mut self, identity: &str) -> (was_connected: bool)
        requires
            old(self).wf(),
        ensures
            final(self).wf(),
            final(self)@ == removed(old(self)@, identity@),
            was_connected == (reached_by(old(self)@, identity@) is Some),
            final(self).names() == without_key(old(self).names(), identity@),
    {
        self.peers.remove(identity).is_some()
    }

    /// The connection by which a peer is reached.
    pub fn send_to(&self, identity: &str) -> (r: Result<u64, String>)
        requires
            self.wf(),
        ensures
            (match reached_by(self@, identity@) {
                Some(c) => r == Ok::<u64, String>(c),
                None => r is Err && r->Err_0@ == not_connected(identity@),
            }),
    {
        match self.peers.get(identity) {
            Some(c) => Ok(*c),
            None => {
                let mut m = "Peer '".to_owned();
                m.append(identity);
                m.append("' not connected");
                Err(m)
            },
        }
    }

    /// Where a message to `dest` goes.
    pub fn route(&self, dest: &str) -> (r: Route)
        requires
            self.wf(),
        ensures
            r@ == routed(self@, dest@),
    {
        if str_eq(dest, "boot") {
            return Route::Boot;
        }
        match self.send_to(dest) {
            Ok(c) => Route::Peer(c),
            Err(e) => Route::Unreachable(e),
        }
    }

    /// The connections of all peers.
    pub fn broadcast(&self) -> (r: Vec<u64>)
        requires
            self.wf(),
        ensures
            r@ == connections(self@, self.names()),
    {
        let mut r: Vec<u64> = Vec::new();
        let mut i: usize = 0;
        while i < self.peers.len()
            invariant
                i <= self.names().len(),
                self.wf(),
                r@.len() == i,
                forall|k: int| 0 <= k < i ==> r@[k] == self@[#[trigger] self.names()[k]],
            decreases self.names().len() - i,
        {
            r.push(*self.peers.value_at(i));
            i += 1;
        }
        assert(r@ =~= connections(self@, self.names()));
        r
    }

    /// The identities of the connected peers.
    pub fn connected_peers(&self) -> (r: Vec<String>)
        requires
            self.wf(),
        ensures
            texts(r@) == self.names(),
    {
        let mut r: Vec<String> = Vec::new();
        let mut i: usize = 0;
        while i < self.peers.len()
            invariant
                i <= self.names().len(),
                self.wf(),
                texts(r@) =~= self.names().take(i as int),
            decreases self.names().len() - i,
        {
            let k = self.peers.key_at(i).to_owned();
            proof {
                lemma_texts_push(r@, k);
            }
            r.push(k);
            i += 1;
        }
        assert(self.names().take(self.names().len() as int) =~= self.names());
        r
    }
}

/// A registered peer is reached by its latest connection, a removed one is not
/// reached at all, and neither changes how anyone else is reached. Messages to
/// the kernel always go to the kernel.
pub proof fn law_routing_follows_registration(
    peers: Map<Seq<char>, u64>,
    peer: Seq<char>,
    connection: u64,
    other: Seq<char>,
)
    requires
        other != peer,
    ensures
        reached_by(registered(peers, peer, connection), peer) == Some(connection),
        reached_by(removed(peers, peer), peer) is None,
        reached_by(removed(registered(peers, peer, connection), peer), peer) is None,
        reached_by(registered(peers, peer, connection), other) == reached_by(peers, other),
        reached_by(removed(peers, peer), other) == reached_by(peers, other),
        peer != "boot"@ ==> routed(registered(peers, peer, connection), peer) == Routed::Peer(
            connection,
        ),
        peer != "boot"@ ==> routed(removed(peers, peer), peer) == Routed::Unreachable(
            not_connected(peer),
        ),
        routed(registered(peers, peer, connection), other) == routed(peers, other),
        routed(removed(peers, peer), other) == routed(peers, other),
        routed(peers, "boot"@) is Boot,
{
}

/// A peer is known by the name in its handshake, which has to come first.
pub proof fn law_peers_are_known_by_their_handshake(
    t: &str,
    from: &str,
    r: Result<String, String>,
)
    requires
        call_ensures(identify_peer, (t, from), r),
    ensures
        r is Ok <==> t@ == "Hello"@,
        r is Ok ==> r->Ok_0@ == from@,
{
}

} // verus!
