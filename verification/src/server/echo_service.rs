//! A worker's bookkeeping: which peers it serves, the load it reports, and
//! its answer to each line it receives.
use ahash::{AHashMap, RandomState};
use vstd::prelude::*;
use crate::server::connection_service::LoadUpdate;

verus! {

/// A peer's socket address as plain integers: address family (4 or 6), IP
/// address, port, and for IPv6 the flow label and scope id (0 for IPv4).
/// Two keys are equal exactly when the socket addresses are.
pub type PeerKey = (u8, u128, u16, u32, u32);

#[verifier::external_type_specification]
#[verifier::external_body]
#[verifier::reject_recursive_types(K)]
#[verifier::reject_recursive_types(V)]
#[verifier::reject_recursive_types(S)]
pub struct ExAHashMap<K, V, S = RandomState>(AHashMap<K, V, S>);

#[verifier::external_type_specification]
#[verifier::external_body]
pub struct ExRandomState(RandomState);

/// The keys present in a peer map.
pub uninterp spec fn connected_peers(m: AHashMap<PeerKey, ()>) -> Set<PeerKey>;

/// `ahash::AHashMap::new`: a map with no entries.
#[verifier::external_body]
fn peer_map_new() -> (m: AHashMap<PeerKey, ()>)
    ensures
        connected_peers(m) == Set::<PeerKey>::empty(),
{
    AHashMap::new()
}

/// `ahash::AHashMap::insert`: afterwards the key is present; the result is
/// `Some` exactly when it was present before.
#[verifier::external_body]
fn peer_map_insert(m: &mut AHashMap<PeerKey, ()>, key: PeerKey) -> (previous: Option<()>)
    ensures
        connected_peers(*final(m)) == connected_peers(*old(m)).insert(key),
        previous is Some <==> connected_peers(*old(m)).contains(key),
{
    m.insert(key, ())
}

/// `ahash::AHashMap::remove`: afterwards the key is absent; the result is
/// `Some` exactly when it was present before.
#[verifier::external_body]
fn peer_map_remove(m: &mut AHashMap<PeerKey, ()>, key: &PeerKey) -> (previous: Option<()>)
    ensures
        connected_peers(*final(m)) == connected_peers(*old(m)).remove(*key),
        previous is Some <==> connected_peers(*old(m)).contains(*key),
{
    m.remove(key)
}

/// `len` of the map (through its `Deref` to `std::collections::HashMap`):
/// the number of keys present.
#[verifier::external_body]
fn peer_map_len(m: &AHashMap<PeerKey, ()>) -> (n: usize)
    ensures
        n == connected_peers(*m).len(),
{
    m.len()
}

/// The peers a worker currently serves.
pub struct PeerTable {
    worker_id: usize,
    addr_map: AHashMap<PeerKey, ()>,
}

/// The load a worker reports when it serves the peers `peers`: their number,
/// converted to `i32` as the report carries it.
pub open spec fn reported_total(peers: Set<PeerKey>) -> i32 {
    peers.len() as i32
}

/// A peer that connects and then disconnects leaves the set of peers, and so
/// the reported load, as it was.
pub proof fn lemma_connect_then_disconnect(peers: Set<PeerKey>, p: PeerKey)
    requires
        !peers.contains(p),
    ensures
        peers.insert(p).remove(p) == peers,
        reported_total(peers.insert(p).remove(p)) == reported_total(peers),
{
    assert(peers.insert(p).remove(p) =~= peers);
}

/// A new peer raises the number of peers served by one; a peer already
/// served leaves it unchanged.
pub proof fn lemma_connect_counts_distinct_peers(peers: Set<PeerKey>, p: PeerKey)
    requires
        peers.finite(),
    ensures
        peers.contains(p) ==> peers.insert(p).len() == peers.len(),
        !peers.contains(p) ==> peers.insert(p).len() == peers.len() + 1,
{
    if peers.contains(p) {
        assert(peers.insert(p) =~= peers);
    }
}

impl PeerTable {
    /// The set of peers is finite.
    pub closed spec fn wf(&self) -> bool {
        connected_peers(self.addr_map).finite()
    }

    /// The peers served.
    pub closed spec fn peers(&self) -> Set<PeerKey> {
        connected_peers(self.addr_map)
    }

    /// The worker's id.
    pub closed spec fn id(&self) -> usize {
        self.worker_id
    }

    /// A worker that serves no peer yet.
    pub fn new(worker_id: usize) -> (table: Self)
        ensures
            table.wf(),
            table.id() == worker_id,
            table.peers() == Set::<PeerKey>::empty(),
    {
        PeerTable { worker_id, addr_map: peer_map_new() }
    }

    /// The worker's id.
    pub fn worker_id(&self) -> (id: usize)
        ensures
            id == self.id(),
    {
        self.worker_id
    }

    /// Number of peers served.
    pub fn num_peers(&self) -> (n: usize)
        ensures
            n == self.peers().len(),
    {
        peer_map_len(&self.addr_map)
    }

    /// The authoritative load report of this worker.
    pub fn load_update(&self) -> (update: LoadUpdate)
        ensures
            update.worker_id == self.id(),
            update.total == reported_total(self.peers()),
    {
        let n = peer_map_len(&self.addr_map);
        LoadUpdate { worker_id: self.worker_id, total: n as i32 }
    }

    /// A connection arrives. Without a peer address it is ignored; otherwise
    /// the peer is served from now on and the new load is to be reported.
    pub fn on_new_connection(&mut self, peer: Option<PeerKey>) -> (update: Option<LoadUpdate>)
        requires
            old(self).wf(),
        ensures
            final(self).wf(),
            final(self).id() == old(self).id(),
            peer is None ==> update is None && final(self).peers() == old(self).peers(),
            peer matches Some(p) ==> {
                &&& final(self).peers() == old(self).peers().insert(p)
                &&& update matches Some(u) && u.worker_id == old(self).id()
                    && u.total == reported_total(final(self).peers())
            },
    {
        match peer {
            None => None,
            Some(p) => {
                peer_map_insert(&mut self.addr_map, p);
                Some(self.load_update())
            },
        }
    }

    /// A peer's stream ended or failed: the peer is no longer served and the
    /// new load is to be reported.
    pub fn handle_disconnect(&mut self, peer: PeerKey) -> (update: LoadUpdate)
        requires
            old(self).wf(),
        ensures
            final(self).wf(),
            final(self).id() == old(self).id(),
            final(self).peers() == old(self).peers().remove(peer),
            update.worker_id == old(self).id(),
            update.total == reported_total(final(self).peers()),
    {
        peer_map_remove(&mut self.addr_map, &peer);
        self.load_update()
    }
}

/// What the framed stream of a peer yielded.
pub enum StreamItem {
    /// A complete line, without its line ending.
    Line(String),
    /// The bytes could not be decoded as a line.
    CodecError,
    /// The peer closed the stream.
    Ended,
}

/// What the worker does next with a peer's stream.
pub enum EchoAction {
    /// Send this line back to the same peer.
    Reply(String),
    /// Forget the peer.
    Disconnect,
}

/// The worker's answer to what a peer's stream yielded: a line is sent back
/// unchanged; anything else ends the peer's session.
pub fn respond(item: StreamItem) -> (action: EchoAction)
    ensures
        match item {
            StreamItem::Line(line) => action == EchoAction::Reply(line),
            _ => action == EchoAction::Disconnect,
        },
{
    match item {
        StreamItem::Line(line) => EchoAction::Reply(line),
        _ => EchoAction::Disconnect,
    }
}

} // verus!
