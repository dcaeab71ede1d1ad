//! The consumer's side of discovery: a table of the peers seen so far. The
//! engine reports a peer every time it hears of it; the table keeps the
//! first sighting of each token and tells a new peer from a known one.

use crate::peer::{DiscoveryPeer, PeerView};
use vstd::prelude::*;

verus! {

/// The peers seen so far, in the order of their first sighting.
#[derive(Debug, PartialEq, Eq)]
pub struct PeerTable {
    peers: Vec<DiscoveryPeer>,
}

/// Whether one of the peers has the token.
pub open spec fn knows(peers: Seq<PeerView>, token: Seq<char>) -> bool {
    exists|i: int| 0 <= i < peers.len() && (#[trigger] peers[i]).token == token
}

/// No two of the peers have the same token.
pub open spec fn distinct_tokens(peers: Seq<PeerView>) -> bool {
    forall|i: int, j: int|
        0 <= i < j < peers.len() ==> (#[trigger] peers[i]).token != (#[trigger] peers[j]).token
}

/// The table after a sighting: a peer with a new token goes to the end, a
/// peer with a known token changes nothing.
pub open spec fn observed(peers: Seq<PeerView>, peer: PeerView) -> Seq<PeerView> {
    if knows(peers, peer.token) {
        peers
    } else {
        peers.push(peer)
    }
}

impl View for PeerTable {
    type V = Seq<PeerView>;

    closed spec fn view(&self) -> Seq<PeerView> {
        self.peers@.map_values(|peer: DiscoveryPeer| peer@)
    }
}

impl PeerTable {
    /// What holds of every table: no token occurs twice.
    #[verifier::type_invariant]
    pub open spec fn wf(&self) -> bool {
        distinct_tokens(self@)
    }

    /// A table without peers.
    pub fn new() -> (table: PeerTable)
        ensures
            table.wf(),
            table@ == Seq::<PeerView>::empty(),
    {
        PeerTable { peers: Vec::new() }
    }

    /// The number of peers in the table.
    pub fn len(&self) -> (n: usize)
        ensures
            n == self@.len(),
    {
        self.peers.len()
    }

    /// The peer of the `index`-th first sighting.
    pub fn get(&self, index: usize) -> (peer: Option<&DiscoveryPeer>)
        ensures
            match peer {
                Some(p) => index < self@.len() && p@ == self@[index as int],
                None => index >= self@.len(),
            },
    {
        if index < self.peers.len() {
            Some(&self.peers[index])
        } else {
            None
        }
    }

    /// Whether a peer with this token has been seen.
    pub fn contains_key(&self, token: &String) -> (found: bool)
        ensures
            found == knows(self@, token@),
    {
        let mut i: usize = 0;
        while i < self.peers.len()
            invariant
                i <= self.peers.len(),
                forall|j: int| 0 <= j < i ==> (#[trigger] self@[j]).token != token@,
            decreases self.peers.len() - i,
        {
            if self.peers[i].token() == *token {
                assert(self@[i as int].token == token@);
                return true;
            }
            i += 1;
        }
        false
    }

    /// Records a sighting. The first peer seen with a token is kept and
    /// `true` is returned; a later peer with that token is dropped and
    /// `false` is returned.
    pub fn insert(&mut self, peer: DiscoveryPeer) -> (fresh: bool)
        ensures
            final(self).wf(),
            fresh == !knows(old(self)@, peer@.token),
            final(self)@ == observed(old(self)@, peer@),
    {
        proof {
            use_type_invariant(&*self);
        }
        if self.contains_key(&peer.token()) {
            false
        } else {
            proof {
                lemma_observed_keeps_distinct(self@, peer@);
                assert(self@.push(peer@) =~= self.peers@.push(peer).map_values(
                    |peer: DiscoveryPeer| peer@,
                ));
            }
            // the list is taken out, extended and put back whole
            let mut peers: Vec<DiscoveryPeer> = Vec::new();
            core::mem::swap(&mut self.peers, &mut peers);
            peers.push(peer);
            self.peers = peers;
            true
        }
    }
}

/// First seen wins: a second sighting of a token leaves the table as the
/// first one made it, whatever address and port the second one has.
pub proof fn lemma_first_seen_wins(peers: Seq<PeerView>, first: PeerView, second: PeerView)
    requires
        first.token == second.token,
    ensures
        observed(observed(peers, first), second) == observed(peers, first),
{
    let once = observed(peers, first);
    if knows(peers, first.token) {
    } else {
        assert(once[peers.len() as int].token == second.token);
    }
}

/// Sightings keep the tokens of a table distinct.
pub proof fn lemma_observed_keeps_distinct(peers: Seq<PeerView>, peer: PeerView)
    requires
        distinct_tokens(peers),
    ensures
        distinct_tokens(observed(peers, peer)),
{
    if !knows(peers, peer.token) {
        let after = peers.push(peer);
        assert forall|i: int, j: int| 0 <= i < j < after.len() implies (#[trigger] after[i]).token
            != (#[trigger] after[j]).token by {}
    }
}

} // verus!
