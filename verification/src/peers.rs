//! Open connections, counted by peer.
use std::collections::HashMap;

use vstd::prelude::*;

use crate::address::IpAddr;

verus! {

broadcast use vstd::std_specs::hash::group_hash_axioms;

/// How many connections each peer has open. The view maps the peers that have
/// any to their number.
#[derive(Debug)]
pub struct PeerConnections {
    v4: HashMap<u32, usize>,
    v6: HashMap<u128, usize>,
}

/// The connections of `peer` in a map that leaves out peers without any.
pub open spec fn connections_of(peers: Map<IpAddr, nat>, peer: IpAddr) -> nat {
    if peers.contains_key(peer) {
        peers[peer]
    } else {
        0
    }
}

/// One more connection of `peer`.
pub open spec fn peer_opened(peers: Map<IpAddr, nat>, peer: IpAddr) -> Map<IpAddr, nat> {
    peers.insert(peer, connections_of(peers, peer) + 1)
}

/// One connection of `peer` fewer; a peer without any is left out.
pub open spec fn peer_closed(peers: Map<IpAddr, nat>, peer: IpAddr) -> Map<IpAddr, nat> {
    if connections_of(peers, peer) > 1 {
        peers.insert(peer, (peers[peer] - 1) as nat)
    } else {
        peers.remove(peer)
    }
}

/// Whether a connection of `peer` that is tried under `limit` is opened, and leaves
/// `after`.
pub open spec fn tries(
    before: Map<IpAddr, nat>,
    peer: IpAddr,
    limit: usize,
    opened: bool,
    after: Map<IpAddr, nat>,
) -> bool {
    &&& opened == (connections_of(before, peer) < limit)
    &&& after == if opened {
        peer_opened(before, peer)
    } else {
        before
    }
}

impl View for PeerConnections {
    type V = Map<IpAddr, nat>;

    closed spec fn view(&self) -> Map<IpAddr, nat> {
        Map::new(
            |peer: IpAddr|
                match peer {
                    IpAddr::V4(bits) => self.v4@.contains_key(bits),
                    IpAddr::V6(bits) => self.v6@.contains_key(bits),
                },
            |peer: IpAddr|
                match peer {
                    IpAddr::V4(bits) => self.v4@[bits] as nat,
                    IpAddr::V6(bits) => self.v6@[bits] as nat,
                },
        )
    }
}

impl PeerConnections {
    /// No connections.
    pub fn new() -> (peers: Self)
        ensures
            peers@ == Map::<IpAddr, nat>::empty(),
    {
        let peers = Self { v4: HashMap::new(), v6: HashMap::new() };
        assert(peers@ =~= Map::<IpAddr, nat>::empty());
        peers
    }

    /// The open connections of `peer`.
    pub fn count(&self, peer: IpAddr) -> (count: usize)
        ensures
            count == connections_of(self@, peer),
    {
        let found = match peer {
            IpAddr::V4(bits) => self.v4.get(&bits),
            IpAddr::V6(bits) => self.v6.get(&bits),
        };
        match found {
            Some(count) => *count,
            None => 0,
        }
    }

    fn store(&mut self, peer: IpAddr, count: usize)
        ensures
            final(self)@ == old(self)@.insert(peer, count as nat),
    {
        match peer {
            IpAddr::V4(bits) => {
                self.v4.insert(bits, count);
            },
            IpAddr::V6(bits) => {
                self.v6.insert(bits, count);
            },
        }
        assert(self@ =~= old(self)@.insert(peer, count as nat));
    }

    fn forget(&mut self, peer: IpAddr)
        ensures
            final(self)@ == old(self)@.remove(peer),
    {
        match peer {
            IpAddr::V4(bits) => {
                self.v4.remove(&bits);
            },
            IpAddr::V6(bits) => {
                self.v6.remove(&bits);
            },
        }
        assert(self@ =~= old(self)@.remove(peer));
    }

    /// Counts one more connection of `peer`, if it has fewer than `limit`.
    pub fn try_open(&mut self, peer: IpAddr, limit: usize) -> (opened: bool)
        ensures
            tries(old(self)@, peer, limit, opened, final(self)@),
    {
        let current = self.count(peer);
        if current >= limit {
            return false;
        }
        self.store(peer, current + 1);
        true
    }

    /// Counts one connection of `peer` fewer.
    pub fn close(&mut self, peer: IpAddr)
        ensures
            final(self)@ == peer_closed(old(self)@, peer),
    {
        let current = self.count(peer);
        if current > 1 {
            self.store(peer, current - 1);
        } else {
            self.forget(peer);
        }
    }
}

/// Opening a connection counts one more for its peer and leaves every other peer's
/// number alone; closing one counts one fewer, never below none. A peer is
/// remembered only while it has connections.
pub proof fn law_connections_are_counted_by_peer(
    peers: Map<IpAddr, nat>,
    peer: IpAddr,
    other: IpAddr,
)
    ensures
        connections_of(Map::empty(), peer) == 0,
        connections_of(peer_opened(peers, peer), peer) == connections_of(peers, peer) + 1,
        connections_of(peers, peer) > 0 ==> connections_of(peer_closed(peers, peer), peer) + 1
            == connections_of(peers, peer),
        connections_of(peers, peer) == 0 ==> connections_of(peer_closed(peers, peer), peer) == 0,
        connections_of(peers, peer) <= 1 ==> !peer_closed(peers, peer).contains_key(peer),
        other != peer ==> connections_of(peer_opened(peers, peer), other) == connections_of(
            peers,
            other,
        ) && connections_of(peer_closed(peers, peer), other) == connections_of(peers, other),
{
}

/// A peer opens connections up to its limit and not beyond, whatever others have
/// open.
pub proof fn law_peers_open_up_to_their_limit(
    before: Map<IpAddr, nat>,
    peer: IpAddr,
    limit: usize,
    opened: bool,
    after: Map<IpAddr, nat>,
)
    requires
        tries(before, peer, limit, opened, after),
    ensures
        opened <==> connections_of(before, peer) < limit,
        opened ==> connections_of(after, peer) == connections_of(before, peer) + 1,
        !opened ==> after == before,
        connections_of(before, peer) <= limit ==> connections_of(after, peer) <= limit,
{
}

} // verus!
