use vstd::prelude::*;

use std::collections::HashSet;

use crate::PeerId;

verus! {

broadcast use vstd::std_specs::hash::group_hash_axioms;

/// One component of a multi-component network address.
#[derive(Debug, Copy, Clone, Eq, PartialEq, Hash, Structural)]
pub enum Protocol {
    /// A trailing tag naming the peer the address reaches.
    P2p(PeerId),
    /// Any transport component, carried as an opaque code.
    Other(u64),
}

/// A multi-component network address.
#[derive(Debug, Clone, Eq, PartialEq, Hash)]
pub struct Multiaddr {
    components: Vec<Protocol>,
}

/// Whether the address ends in a peer-id tag.
pub open spec fn spec_has_trailing_peer_tag(a: Seq<Protocol>) -> bool {
    a.len() > 0 && a.last() is P2p
}

/// The address with a trailing peer-id tag removed, if it had one.
pub open spec fn spec_strip_peer_tag(a: Seq<Protocol>) -> Seq<Protocol> {
    if spec_has_trailing_peer_tag(a) {
        a.drop_last()
    } else {
        a
    }
}

/// An address carries at most one trailing peer-id tag: its last two
/// components are not both tags.  Every address of the wire format is of
/// this shape; one with a doubled tag would keep a tag after stripping.
pub open spec fn spec_single_peer_tag(a: Seq<Protocol>) -> bool {
    !(a.len() >= 2 && a[a.len() - 1] is P2p && a[a.len() - 2] is P2p)
}

/// Stripping an address with at most one trailing tag leaves none.
proof fn lemma_strip_leaves_no_trailing_tag(a: Seq<Protocol>)
    requires
        spec_single_peer_tag(a),
    ensures
        !spec_has_trailing_peer_tag(spec_strip_peer_tag(a)),
{
    if spec_has_trailing_peer_tag(a) {
        let b = a.drop_last();
        if b.len() > 0 {
            assert(b.last() == a[a.len() - 2]);
        }
    }
}

impl View for Multiaddr {
    type V = Seq<Protocol>;

    closed spec fn view(&self) -> Seq<Protocol> {
        self.components@
    }
}

impl Multiaddr {
    pub fn new(components: Vec<Protocol>) -> (r: Self)
        ensures
            r@ == components@,
    {
        Multiaddr { components }
    }

    pub fn components(&self) -> (r: &Vec<Protocol>)
        ensures
            r@ == self@,
    {
        &self.components
    }

    /// This address without its trailing peer-id tag, if it carried one.
    pub fn strip_trailing_peer_tag(self) -> (r: Self)
        ensures
            r@ == spec_strip_peer_tag(self@),
    {
        let ghost orig = self@;
        let mut a = self;
        let n = a.components.len();
        if n > 0 && matches!(a.components[n - 1], Protocol::P2p(_)) {
            a.components.pop();
            proof {
                assert(a@ =~= spec_strip_peer_tag(orig));
            }
        }
        a
    }
}

/// Configuration of the discovery engine.
#[derive(Clone, Debug)]
pub struct DiscoveryConfig {
    /// How many closest-peers queries are kept outstanding at once.
    pub n_active_queries: usize,
    /// An optional cap: once this many peers were found, the stream ends.
    pub found_peers_limit: Option<usize>,
}

impl Default for DiscoveryConfig {
    /// One outstanding query, no cap.
    fn default() -> (r: Self)
        ensures
            r.n_active_queries == 1,
            r.found_peers_limit is None,
    {
        Self { n_active_queries: 1, found_peers_limit: None }
    }
}

/// What the discovery engine asks its overlay to do.
#[derive(Debug, Clone, Eq, PartialEq)]
pub enum DiscoveryAction {
    /// Add this address for this peer to the overlay routing table.
    AddAddress { peer_id: PeerId, address: Multiaddr },
    /// Start one closest-peers overlay query at a fresh random key.
    StartClosestPeersQuery,
}

/// Overlay events the discovery engine consumes.
#[derive(Debug, Clone, Eq, PartialEq)]
pub enum KademliaEvent {
    /// The routing table took up a peer; its known addresses follow, at
    /// least one.
    RoutingUpdated { peer: PeerId, addresses: Vec<Multiaddr> },
    RoutablePeer { peer: PeerId, address: Multiaddr },
    PendingRoutablePeer { peer: PeerId, address: Multiaddr },
    /// A closest-peers query finished; nothing is read from it.
    ClosestPeersResult { peers: Vec<PeerId> },
}

/// The `AddAddress` actions that a peer's reported listen addresses yield,
/// in report order.
pub open spec fn spec_add_address_actions(peer_id: PeerId, addrs: Seq<Multiaddr>) -> Seq<
    DiscoveryAction,
> {
    Seq::new(addrs.len(), |i: int| DiscoveryAction::AddAddress { peer_id, address: addrs[i] })
}

/// The discovery engine: bootstraps from the known peers, walks the overlay
/// with closest-peers queries, and surfaces each newly seen peer exactly
/// once, its address stripped of any trailing peer-id tag.
pub struct Discovery {
    discovery_config: DiscoveryConfig,
    found_peers: HashSet<u64>,
    local_peer_id: PeerId,
    address: Multiaddr,
    emitted: Ghost<Seq<(PeerId, Seq<Protocol>)>>,
}

impl Discovery {
    /// The engine's configuration.
    pub closed spec fn spec_config(&self) -> DiscoveryConfig {
        self.discovery_config
    }

    /// Every peer the engine has surfaced, as fingerprints.
    pub closed spec fn spec_found_peers(&self) -> Set<u64> {
        self.found_peers@
    }

    /// This node's own peer id.
    pub closed spec fn spec_local_peer_id(&self) -> PeerId {
        self.local_peer_id
    }

    /// The address this node listens on.
    pub closed spec fn spec_address(&self) -> Multiaddr {
        self.address
    }

    /// Every `(peer, address)` pair the engine has emitted, in order.
    pub closed spec fn emitted_pairs(&self) -> Seq<(PeerId, Seq<Protocol>)> {
        self.emitted@
    }

    /// The discovery invariant: every emitted peer is recorded as found, no
    /// peer is emitted twice, and no emitted address ends in a peer-id tag.
    pub open spec fn wf(&self) -> bool {
        &&& forall|i: int|
            0 <= i < self.emitted_pairs().len() ==> self.spec_found_peers().contains(
                #[trigger] self.emitted_pairs()[i].0.0,
            )
        &&& forall|i: int, j: int|
            0 <= i < j < self.emitted_pairs().len() ==> self.emitted_pairs()[i].0
                != self.emitted_pairs()[j].0
        &&& forall|i: int|
            0 <= i < self.emitted_pairs().len() ==> !spec_has_trailing_peer_tag(
                #[trigger] self.emitted_pairs()[i].1,
            )
    }

    /// Whether the configured cap on found peers has been reached; the
    /// emission stream ends there.
    pub open spec fn spec_at_limit(&self) -> bool {
        match self.spec_config().found_peers_limit {
            Some(limit) => self.spec_found_peers().len() >= limit,
            None => false,
        }
    }

    /// Construct the engine over its own peer id and listen address, with no
    /// peer surfaced yet.  The returned actions seed the overlay routing
    /// table with each known peer, in order, then schedule the initial
    /// closest-peers queries, one per configured active query.
    #[verifier::loop_isolation(false)]
    pub fn new(
        discovery_config: DiscoveryConfig,
        local_peer_id: PeerId,
        address: Multiaddr,
        known_peers: Vec<(PeerId, Multiaddr)>,
    ) -> (r: (Discovery, Vec<DiscoveryAction>))
        ensures
            r.0.wf(),
            r.0.spec_config() == discovery_config,
            r.0.spec_local_peer_id() == local_peer_id,
            r.0.spec_address() == address,
            r.0.spec_found_peers() == Set::<u64>::empty(),
            r.0.emitted_pairs() == Seq::<(PeerId, Seq<Protocol>)>::empty(),
            r.1@ == Seq::new(
                known_peers@.len(),
                |i: int|
                    DiscoveryAction::AddAddress {
                        peer_id: known_peers@[i].0,
                        address: known_peers@[i].1,
                    },
            ) + Seq::new(
                discovery_config.n_active_queries as nat,
                |i: int| DiscoveryAction::StartClosestPeersQuery,
            ),
    {
        let ghost known0 = known_peers@;
        let ghost seeds = Seq::new(
            known0.len(),
            |i: int|
                DiscoveryAction::AddAddress { peer_id: known0[i].0, address: known0[i].1 },
        );
        let mut actions: Vec<DiscoveryAction> = Vec::new();
        let mut known_peers = known_peers;
        let ghost mut consumed: int = 0;
        while known_peers.len() > 0
            invariant
                0 <= consumed <= known0.len(),
                known_peers@ == known0.skip(consumed),
                actions@ == seeds.take(consumed),
            decreases known_peers@.len(),
        {
            let (peer_id, address) = known_peers.remove(0);
            actions.push(DiscoveryAction::AddAddress { peer_id, address });
            proof {
                consumed = consumed + 1;
                assert(known0.skip(consumed - 1)[0] == known0[consumed - 1]);
                assert(peer_id == known0[consumed - 1].0 && address == known0[consumed - 1].1);
                assert(seeds[consumed - 1] == DiscoveryAction::AddAddress { peer_id, address });
                assert(known_peers@ =~= known0.skip(consumed));
                assert(actions@ =~= seeds.take(consumed));
            }
        }
        proof {
            assert(actions@ =~= seeds);
        }
        let n = discovery_config.n_active_queries;
        let mut started: usize = 0;
        while started < n
            invariant
                0 <= started <= n,
                actions@ == seeds + Seq::new(
                    started as nat,
                    |i: int| DiscoveryAction::StartClosestPeersQuery,
                ),
            decreases n - started,
        {
            actions.push(DiscoveryAction::StartClosestPeersQuery);
            started = started + 1;
            proof {
                assert(actions@ =~= seeds + Seq::new(
                    started as nat,
                    |i: int| DiscoveryAction::StartClosestPeersQuery,
                ));
            }
        }
        let d = Discovery {
            discovery_config,
            found_peers: HashSet::new(),
            local_peer_id,
            address,
            emitted: Ghost(Seq::empty()),
        };
        (d, actions)
    }

    pub fn peer_id(&self) -> (r: &PeerId)
        ensures
            *r == self.spec_local_peer_id(),
    {
        &self.local_peer_id
    }

    pub fn address(&self) -> (r: &Multiaddr)
        ensures
            *r == self.spec_address(),
    {
        &self.address
    }

    /// How many fresh closest-peers queries to start so that the configured
    /// number is outstanding.
    pub fn queries_to_start(&self, outstanding: usize) -> (r: usize)
        ensures
            r == if outstanding < self.spec_config().n_active_queries {
                self.spec_config().n_active_queries - outstanding
            } else {
                0int
            },
    {
        if outstanding < self.discovery_config.n_active_queries {
            self.discovery_config.n_active_queries - outstanding
        } else {
            0
        }
    }

    /// Whether the configured cap on found peers has been reached.
    pub fn at_found_peers_limit(&self) -> (r: bool)
        ensures
            r == self.spec_at_limit(),
    {
        match self.discovery_config.found_peers_limit {
            Some(limit) => self.found_peers.len() >= limit,
            None => false,
        }
    }

    /// A peer surfaced by the overlay: emitted with its address stripped of
    /// any trailing peer-id tag, unless this peer was surfaced before, in
    /// which case nothing is emitted and nothing changes.  The address may
    /// carry at most one trailing peer-id tag.
    pub fn handle_found_peer(&mut self, found_peer: PeerId, address: Multiaddr) -> (r: Option<
        (PeerId, Multiaddr),
    >)
        requires
            old(self).wf(),
            spec_single_peer_tag(address@),
        ensures
            final(self).wf(),
            found_peer_step(*old(self), *final(self), found_peer, address@, r),
    {
        if self.found_peers.contains(&found_peer.0) {
            return None;
        }
        self.found_peers.insert(found_peer.0);
        proof {
            lemma_strip_leaves_no_trailing_tag(address@);
        }
        let stripped = address.strip_trailing_peer_tag();
        proof {
            self.emitted@ = self.emitted@.push((found_peer, stripped@));
            let e0 = old(self).emitted_pairs();
            let e1 = self.emitted_pairs();
            assert forall|i: int|
                0 <= i < e1.len() implies self.spec_found_peers().contains(
                #[trigger] e1[i].0.0,
            ) by {
                if i < e0.len() {
                    assert(old(self).spec_found_peers().contains(e0[i].0.0));
                }
            }
            assert forall|i: int, j: int|
                0 <= i < j < e1.len() implies e1[i].0 != e1[j].0 by {
                if j == e1.len() - 1 {
                    assert(old(self).spec_found_peers().contains(e0[i].0.0));
                    assert(!old(self).spec_found_peers().contains(found_peer.0));
                } else {
                    assert(e0[i].0 != e0[j].0);
                }
            }
            assert forall|i: int|
                0 <= i < e1.len() implies !spec_has_trailing_peer_tag(
                #[trigger] e1[i].1,
            ) by {
                if i < e0.len() {
                    assert(!spec_has_trailing_peer_tag(e0[i].1));
                }
            }
        }
        Some((found_peer, stripped))
    }

    /// Consume one overlay event.  The three routing reports surface their
    /// peer through `handle_found_peer` (a routing update uses the first of
    /// the peer's addresses); a finished closest-peers query carries nothing
    /// to surface.
    pub fn handle_kademlia_event(&mut self, event: KademliaEvent) -> (r: Option<
        (PeerId, Multiaddr),
    >)
        requires
            old(self).wf(),
            event matches KademliaEvent::RoutingUpdated { addresses, .. } ==> addresses@.len() > 0
                && spec_single_peer_tag(addresses@[0]@),
            event matches KademliaEvent::RoutablePeer { address, .. } ==> spec_single_peer_tag(
                address@,
            ),
            event matches KademliaEvent::PendingRoutablePeer { address, .. }
                ==> spec_single_peer_tag(address@),
        ensures
            final(self).wf(),
            ({
                match event {
                    KademliaEvent::RoutingUpdated { peer, addresses } => found_peer_step(
                        *old(self),
                        *final(self),
                        peer,
                        addresses@[0]@,
                        r,
                    ),
                    KademliaEvent::RoutablePeer { peer, address } => found_peer_step(
                        *old(self),
                        *final(self),
                        peer,
                        address@,
                        r,
                    ),
                    KademliaEvent::PendingRoutablePeer { peer, address } => found_peer_step(
                        *old(self),
                        *final(self),
                        peer,
                        address@,
                        r,
                    ),
                    KademliaEvent::ClosestPeersResult { .. } => r is None && *final(self) == *old(
                        self,
                    ),
                }
            }),
    {
        match event {
            KademliaEvent::RoutingUpdated { peer, addresses } => {
                let mut addresses = addresses;
                let first = addresses.remove(0);
                self.handle_found_peer(peer, first)
            },
            KademliaEvent::RoutablePeer { peer, address } => self.handle_found_peer(peer, address),
            KademliaEvent::PendingRoutablePeer { peer, address } => self.handle_found_peer(
                peer,
                address,
            ),
            KademliaEvent::ClosestPeersResult { peers } => {
                let _ = peers;
                None
            },
        }
    }

    /// Consume one identify report: every listen address the peer reported
    /// is to be added to the overlay routing table, in report order.  This
    /// is the only way new addresses enter routing.
    pub fn handle_identify(&self, peer_id: PeerId, listen_addrs: Vec<Multiaddr>) -> (r: Vec<
        DiscoveryAction,
    >)
        ensures
            r@ == spec_add_address_actions(peer_id, listen_addrs@),
    {
        let ghost addrs0 = listen_addrs@;
        let mut listen_addrs = listen_addrs;
        let mut actions: Vec<DiscoveryAction> = Vec::new();
        let ghost mut consumed: int = 0;
        while listen_addrs.len() > 0
            invariant
                0 <= consumed <= addrs0.len(),
                listen_addrs@ == addrs0.skip(consumed),
                actions@ == spec_add_address_actions(peer_id, addrs0).take(consumed),
            decreases listen_addrs@.len(),
        {
            let address = listen_addrs.remove(0);
            actions.push(DiscoveryAction::AddAddress { peer_id, address });
            proof {
                consumed = consumed + 1;
                assert(listen_addrs@ =~= addrs0.skip(consumed));
                assert(actions@ =~= spec_add_address_actions(peer_id, addrs0).take(consumed));
            }
        }
        proof {
            assert(actions@ =~= spec_add_address_actions(peer_id, addrs0));
        }
        actions
    }
}

/// How one surfaced `(peer, address)` report changes the engine and what it
/// emits: a peer seen before is dropped, a new peer is recorded and emitted
/// exactly once with its address stripped of any trailing peer-id tag.
pub open spec fn found_peer_step(
    d0: Discovery,
    d1: Discovery,
    found_peer: PeerId,
    address: Seq<Protocol>,
    r: Option<(PeerId, Multiaddr)>,
) -> bool {
    &&& d1.spec_config() == d0.spec_config()
    &&& d1.spec_local_peer_id() == d0.spec_local_peer_id()
    &&& d1.spec_address() == d0.spec_address()
    &&& if d0.spec_found_peers().contains(found_peer.0) {
        &&& r is None
        &&& d1.spec_found_peers() == d0.spec_found_peers()
        &&& d1.emitted_pairs() == d0.emitted_pairs()
    } else {
        &&& r matches Some(pair) && pair.0 == found_peer && pair.1@ == spec_strip_peer_tag(
            address,
        )
        &&& d1.spec_found_peers() == d0.spec_found_peers().insert(found_peer.0)
        &&& d1.emitted_pairs() == d0.emitted_pairs().push(
            (found_peer, spec_strip_peer_tag(address)),
        )
    }
}

/// No peer id appears more than once on the discovery emission stream.
pub proof fn lemma_discovered_peers_distinct(d: &Discovery)
    requires
        d.wf(),
    ensures
        forall|i: int, j: int|
            0 <= i < j < d.emitted_pairs().len() ==> d.emitted_pairs()[i].0
                != d.emitted_pairs()[j].0,
{
}

/// No address emitted by discovery ends in a peer-id tag.
pub proof fn lemma_emitted_addresses_without_peer_tag(d: &Discovery)
    requires
        d.wf(),
    ensures
        forall|i: int|
            0 <= i < d.emitted_pairs().len() ==> !spec_has_trailing_peer_tag(
                #[trigger] d.emitted_pairs()[i].1,
            ),
{
}

} // verus!
