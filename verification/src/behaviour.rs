use vstd::prelude::*;

use std::collections::HashSet;

use defaultmap::DefaultHashMap;

use crate::db_executor::Data;
use crate::streamed_data::{InboundSessionId, OutboundSessionId};
use crate::{BlockQuery, PeerId};

verus! {

broadcast use vstd::std_specs::hash::group_hash_axioms;

/// Error of an outbound session whose peer could not be dialed.
#[derive(Debug, Copy, Clone, Eq, PartialEq, Structural)]
pub struct PeerNotConnected;

/// Error returned by `send_data` on an inbound session id that is not open.
#[derive(Debug, Copy, Clone, Eq, PartialEq, Structural)]
pub struct SessionIdNotFoundError;

/// What the router surfaces to the layer above it.
#[derive(Debug, Copy, Clone, Eq, PartialEq)]
pub enum Event {
    /// A remote peer opened a session with this query.
    NewInboundQuery { query: BlockQuery, inbound_session_id: InboundSessionId },
    /// A data item arrived on one of our outbound sessions.
    ReceivedData { data: Data, outbound_session_id: OutboundSessionId },
    /// An outbound session failed before its peer was reached.
    SessionFailed { outbound_session_id: OutboundSessionId, error: PeerNotConnected },
}

/// What the router asks the swarm to do, in queue order.
#[derive(Debug, Copy, Clone, Eq, PartialEq)]
pub enum ToSwarmEvent {
    /// Dial this peer (only if it is currently disconnected).
    Dial { peer_id: PeerId },
    /// Hand a new outbound query to the peer's connection handler.
    NotifyNewQuery { peer_id: PeerId, query: BlockQuery, outbound_session_id: OutboundSessionId },
    /// Hand a data item to the handler of this inbound session.
    NotifySendData { data: Data, inbound_session_id: InboundSessionId },
    /// Surface an event to the layer above.
    GenerateEvent(Event),
}

/// Connection-lifecycle reports the swarm feeds the router.
#[derive(Debug, Copy, Clone, Eq, PartialEq)]
pub enum FromSwarmEvent {
    ConnectionEstablished { peer_id: PeerId },
    ConnectionClosed { peer_id: PeerId },
    DialFailure { peer_id: PeerId },
}

/// Reports a connection handler feeds the router.
#[derive(Debug, Copy, Clone, Eq, PartialEq)]
pub enum FromHandlerEvent {
    /// The remote opened a session carrying this query.
    NewInboundSession { query: BlockQuery },
    /// A data item arrived on an outbound session.
    ReceivedData { data: Data, outbound_session_id: OutboundSessionId },
}

/// An outbound query waiting for its peer's dial to complete.
#[derive(Debug, Copy, Clone, Eq, PartialEq)]
pub struct PendingQuery {
    pub query: BlockQuery,
    pub outbound_session_id: OutboundSessionId,
}

/// Declares defaultmap's `DefaultHashMap`, a hash map that materialises a
/// default value for absent keys; the router buffers pending queries in
/// one.  The verifier sees it as opaque; what the contracts say of it goes
/// through `pending_map_view`.
#[verifier::external_type_specification]
#[verifier::external_body]
#[verifier::reject_recursive_types(K)]
#[verifier::reject_recursive_types(V)]
pub struct ExDefaultHashMap<K: Eq + std::hash::Hash, V>(DefaultHashMap<K, V>);

/// The entries of the per-peer pending-queries map: which peers have a
/// queue, and each queue's content in arrival order.
pub uninterp spec fn pending_map_view(m: DefaultHashMap<u64, Vec<PendingQuery>>) -> Map<
    u64,
    Seq<PendingQuery>,
>;

/// A peer's queue in the pending map: its entry, or empty when absent.
pub open spec fn pending_entry(m: Map<u64, Seq<PendingQuery>>, peer: u64) -> Seq<PendingQuery> {
    if m.dom().contains(peer) {
        m[peer]
    } else {
        Seq::empty()
    }
}

/// Relies on defaultmap::DefaultHashMap::new: the map starts with no entry.
#[verifier::external_body]
fn pending_map_new() -> (m: DefaultHashMap<u64, Vec<PendingQuery>>)
    ensures
        pending_map_view(m).dom() == Set::<u64>::empty(),
{
    DefaultHashMap::new()
}

/// Relies on defaultmap::DefaultHashMap::get_mut: for an absent key it first
/// stores the default value, an empty vector, and returns a reference to the
/// entry; so this push appends to the peer's queue, creating the queue when
/// the peer had none.
#[verifier::external_body]
fn pending_map_push(m: &mut DefaultHashMap<u64, Vec<PendingQuery>>, peer: u64, pq: PendingQuery)
    ensures
        pending_map_view(*final(m)) == pending_map_view(*old(m)).insert(
            peer,
            pending_entry(pending_map_view(*old(m)), peer).push(pq),
        ),
{
    m.get_mut(peer).push(pq);
}

/// Relies on defaultmap::DefaultHashMap::remove: it removes the entry for
/// the key from the underlying map and returns it, or returns None when the
/// key has no entry.
#[verifier::external_body]
fn pending_map_remove(m: &mut DefaultHashMap<u64, Vec<PendingQuery>>, peer: u64) -> (r: Option<
    Vec<PendingQuery>,
>)
    ensures
        pending_map_view(*old(m)).dom().contains(peer) ==> (r matches Some(v)
            && v@ == pending_map_view(*old(m))[peer]
            && pending_map_view(*final(m)) == pending_map_view(*old(m)).remove(peer)),
        !pending_map_view(*old(m)).dom().contains(peer) ==> (r is None
            && pending_map_view(*final(m)) == pending_map_view(*old(m))),
{
    m.remove(&peer)
}

/// The pending map after a query is buffered for `peer`: the pair joins the
/// back of the peer's queue, which is created when the peer had none.
pub open spec fn spec_enqueue(
    m: Map<u64, Seq<PendingQuery>>,
    peer: u64,
    pq: PendingQuery,
) -> Map<u64, Seq<PendingQuery>> {
    m.insert(peer, pending_entry(m, peer).push(pq))
}

/// A pending queue is well formed when its session ids arrived in strictly
/// increasing order and all of them were allocated before `next`.
pub open spec fn queue_wf(q: Seq<PendingQuery>, next: u64) -> bool {
    &&& forall|i: int, j: int|
        0 <= i < j < q.len() ==> q[i].outbound_session_id.value < q[j].outbound_session_id.value
    &&& forall|i: int| 0 <= i < q.len() ==> q[i].outbound_session_id.value < next
}

/// The handler notifications that draining a pending queue produces, in
/// queue (FIFO) order.
pub open spec fn spec_notifications_of(peer_id: PeerId, q: Seq<PendingQuery>) -> Seq<
    ToSwarmEvent,
> {
    Seq::new(
        q.len(),
        |i: int|
            ToSwarmEvent::NotifyNewQuery {
                peer_id,
                query: q[i].query,
                outbound_session_id: q[i].outbound_session_id,
            },
    )
}

/// The failure events that a failed dial produces for a pending queue, in
/// queue order.
pub open spec fn spec_failures_of(q: Seq<PendingQuery>) -> Seq<ToSwarmEvent> {
    Seq::new(
        q.len(),
        |i: int|
            ToSwarmEvent::GenerateEvent(
                Event::SessionFailed {
                    outbound_session_id: q[i].outbound_session_id,
                    error: PeerNotConnected,
                },
            ),
    )
}

/// A queue well formed for one bound is well formed for any larger bound.
proof fn lemma_queue_wf_mono(q: Seq<PendingQuery>, n0: u64, n1: u64)
    requires
        queue_wf(q, n0),
        n0 <= n1,
    ensures
        queue_wf(q, n1),
{
    assert forall|i: int| 0 <= i < q.len() implies q[i].outbound_session_id.value < n1 by {
        assert(q[i].outbound_session_id.value < n0);
    }
}

/// The session router: multiplexes outbound queries and inbound deliveries
/// over peer connections, dialing peers on demand and buffering queries
/// while dials complete.
pub struct Behaviour {
    substream_timeout_millis: u64,
    pending_events: std::collections::VecDeque<ToSwarmEvent>,
    pending_queries: DefaultHashMap<u64, Vec<PendingQuery>>,
    connected_peers: HashSet<u64>,
    inbound_sessions: HashSet<u64>,
    next_outbound_session_id: OutboundSessionId,
    next_inbound_session_id: InboundSessionId,
    issued_outbound: Ghost<Seq<u64>>,
}

impl Behaviour {
    /// The configured idle bound between frames of one substream.
    pub closed spec fn spec_substream_timeout_millis(&self) -> u64 {
        self.substream_timeout_millis
    }

    /// The swarm requests and surfaced events not yet polled, front first.
    pub closed spec fn spec_pending_events(&self) -> Seq<ToSwarmEvent> {
        self.pending_events@
    }

    /// The per-peer queues of queries waiting for a dial.
    pub closed spec fn spec_pending_queries(&self) -> Map<u64, Seq<PendingQuery>> {
        pending_map_view(self.pending_queries)
    }

    /// The peers currently connected.
    pub closed spec fn spec_connected_peers(&self) -> Set<u64> {
        self.connected_peers@
    }

    /// The inbound sessions currently open.
    pub closed spec fn spec_inbound_sessions(&self) -> Set<u64> {
        self.inbound_sessions@
    }

    /// The id the next `send_query` returns.
    pub closed spec fn spec_next_outbound_session_id(&self) -> u64 {
        self.next_outbound_session_id.value
    }

    /// The id the next inbound session gets.
    pub closed spec fn spec_next_inbound_session_id(&self) -> u64 {
        self.next_inbound_session_id.value
    }

    /// Every outbound session id `send_query` has returned, in call order.
    pub closed spec fn issued_outbound_ids(&self) -> Seq<u64> {
        self.issued_outbound@
    }

    /// The router invariant: issued ids grow strictly and stay below the
    /// next id, and every buffered queue is well formed.
    pub open spec fn wf(&self) -> bool {
        &&& forall|i: int, j: int|
            0 <= i < j < self.issued_outbound_ids().len() ==> self.issued_outbound_ids()[i]
                < self.issued_outbound_ids()[j]
        &&& forall|i: int|
            0 <= i < self.issued_outbound_ids().len() ==> self.issued_outbound_ids()[i]
                < self.spec_next_outbound_session_id()
        &&& forall|p: u64|
            #[trigger] self.spec_pending_queries().dom().contains(p) ==> queue_wf(
                self.spec_pending_queries()[p],
                self.spec_next_outbound_session_id(),
            )
    }

    pub fn new(substream_timeout_millis: u64) -> (b: Self)
        ensures
            b.wf(),
            b.spec_substream_timeout_millis() == substream_timeout_millis,
            b.spec_pending_events() == Seq::<ToSwarmEvent>::empty(),
            b.spec_pending_queries() == Map::<u64, Seq<PendingQuery>>::empty(),
            b.spec_connected_peers() == Set::<u64>::empty(),
            b.spec_inbound_sessions() == Set::<u64>::empty(),
            b.spec_next_outbound_session_id() == 0,
            b.spec_next_inbound_session_id() == 0,
            b.issued_outbound_ids() == Seq::<u64>::empty(),
    {
        let b = Behaviour {
            substream_timeout_millis,
            pending_events: std::collections::VecDeque::new(),
            pending_queries: pending_map_new(),
            connected_peers: HashSet::new(),
            inbound_sessions: HashSet::new(),
            next_outbound_session_id: OutboundSessionId { value: 0 },
            next_inbound_session_id: InboundSessionId { value: 0 },
            issued_outbound: Ghost(Seq::empty()),
        };
        proof {
            assert(b.spec_pending_queries() =~= Map::<u64, Seq<PendingQuery>>::empty());
        }
        b
    }

    /// Queue a handler notification for an outbound query.
    fn send_query_to_handler(
        &mut self,
        peer_id: PeerId,
        query: BlockQuery,
        outbound_session_id: OutboundSessionId,
    )
        ensures
            final(self).spec_pending_events() == old(self).spec_pending_events().push(
                ToSwarmEvent::NotifyNewQuery { peer_id, query, outbound_session_id },
            ),
            final(self).spec_pending_queries() == old(self).spec_pending_queries(),
            final(self).spec_connected_peers() == old(self).spec_connected_peers(),
            final(self).spec_inbound_sessions() == old(self).spec_inbound_sessions(),
            final(self).spec_next_outbound_session_id() == old(
                self,
            ).spec_next_outbound_session_id(),
            final(self).spec_next_inbound_session_id() == old(self).spec_next_inbound_session_id(),
            final(self).issued_outbound_ids() == old(self).issued_outbound_ids(),
            final(self).spec_substream_timeout_millis() == old(
                self,
            ).spec_substream_timeout_millis(),
    {
        self.pending_events.push_back(
            ToSwarmEvent::NotifyNewQuery { peer_id, query, outbound_session_id },
        );
    }

    /// Allocate the next outbound session id for `query` aimed at `peer_id`.
    /// A connected peer's handler is notified at once; otherwise the query
    /// is buffered behind a dial request for the peer.
    pub fn send_query(&mut self, query: BlockQuery, peer_id: PeerId) -> (outbound_session_id:
        OutboundSessionId)
        requires
            old(self).wf(),
            old(self).spec_next_outbound_session_id() < u64::MAX,
        ensures
            final(self).wf(),
            outbound_session_id.value == old(self).spec_next_outbound_session_id(),
            final(self).spec_next_outbound_session_id() == old(
                self,
            ).spec_next_outbound_session_id() + 1,
            final(self).issued_outbound_ids() == old(self).issued_outbound_ids().push(
                outbound_session_id.value,
            ),
            old(self).spec_connected_peers().contains(peer_id.0) ==> {
                &&& final(self).spec_pending_events() == old(self).spec_pending_events().push(
                    ToSwarmEvent::NotifyNewQuery { peer_id, query, outbound_session_id },
                )
                &&& final(self).spec_pending_queries() == old(self).spec_pending_queries()
            },
            !old(self).spec_connected_peers().contains(peer_id.0) ==> {
                &&& final(self).spec_pending_events() == old(self).spec_pending_events().push(
                    ToSwarmEvent::Dial { peer_id },
                )
                &&& final(self).spec_pending_queries() == spec_enqueue(
                    old(self).spec_pending_queries(),
                    peer_id.0,
                    PendingQuery { query, outbound_session_id },
                )
            },
            final(self).spec_connected_peers() == old(self).spec_connected_peers(),
            final(self).spec_inbound_sessions() == old(self).spec_inbound_sessions(),
            final(self).spec_next_inbound_session_id() == old(self).spec_next_inbound_session_id(),
            final(self).spec_substream_timeout_millis() == old(
                self,
            ).spec_substream_timeout_millis(),
    {
        let outbound_session_id = self.next_outbound_session_id;
        self.next_outbound_session_id = OutboundSessionId { value: outbound_session_id.value + 1 };
        proof {
            self.issued_outbound@ = self.issued_outbound@.push(outbound_session_id.value);
        }
        if self.connected_peers.contains(&peer_id.0) {
            self.send_query_to_handler(peer_id, query, outbound_session_id);
            proof {
                lemma_wf_allocate(*old(self), *self);
            }
            return outbound_session_id;
        }
        self.pending_events.push_back(ToSwarmEvent::Dial { peer_id });
        pending_map_push(
            &mut self.pending_queries,
            peer_id.0,
            PendingQuery { query, outbound_session_id },
        );
        proof {
            lemma_wf_enqueue(
                *old(self),
                *self,
                peer_id.0,
                PendingQuery { query, outbound_session_id },
            );
        }
        outbound_session_id
    }

    /// Forward one data item on an open inbound session; `Fin` closes the
    /// session.  An id that is not open is the caller's bug and is returned
    /// as `SessionIdNotFoundError`, changing nothing.
    pub fn send_data(&mut self, data: Data, inbound_session_id: InboundSessionId) -> (r: Result<
        (),
        SessionIdNotFoundError,
    >)
        requires
            old(self).wf(),
        ensures
            final(self).wf(),
            old(self).spec_inbound_sessions().contains(inbound_session_id.value) ==> {
                &&& r is Ok
                &&& final(self).spec_pending_events() == old(self).spec_pending_events().push(
                    ToSwarmEvent::NotifySendData { data, inbound_session_id },
                )
                &&& final(self).spec_inbound_sessions() == if data is Fin {
                    old(self).spec_inbound_sessions().remove(inbound_session_id.value)
                } else {
                    old(self).spec_inbound_sessions()
                }
            },
            !old(self).spec_inbound_sessions().contains(inbound_session_id.value) ==> {
                &&& r == Err::<(), SessionIdNotFoundError>(SessionIdNotFoundError)
                &&& final(self).spec_pending_events() == old(self).spec_pending_events()
                &&& final(self).spec_inbound_sessions() == old(self).spec_inbound_sessions()
            },
            final(self).spec_pending_queries() == old(self).spec_pending_queries(),
            final(self).spec_connected_peers() == old(self).spec_connected_peers(),
            final(self).spec_next_outbound_session_id() == old(
                self,
            ).spec_next_outbound_session_id(),
            final(self).spec_next_inbound_session_id() == old(self).spec_next_inbound_session_id(),
            final(self).issued_outbound_ids() == old(self).issued_outbound_ids(),
            final(self).spec_substream_timeout_millis() == old(
                self,
            ).spec_substream_timeout_millis(),
    {
        if !self.inbound_sessions.contains(&inbound_session_id.value) {
            return Err(SessionIdNotFoundError);
        }
        let is_fin = matches!(data, Data::Fin);
        self.pending_events.push_back(ToSwarmEvent::NotifySendData { data, inbound_session_id });
        if is_fin {
            self.inbound_sessions.remove(&inbound_session_id.value);
        }
        proof {
            lemma_wf_unchanged(*old(self), *self);
        }
        Ok(())
    }

    /// React to a connection-lifecycle report.  An established connection
    /// drains the peer's buffered queries to its handler in FIFO order; a
    /// closed connection forgets the peer; a failed dial fails every
    /// buffered session of that peer with `PeerNotConnected`.
    pub fn on_swarm_event(&mut self, event: FromSwarmEvent)
        requires
            old(self).wf(),
        ensures
            final(self).wf(),
            ({
                let m0 = old(self).spec_pending_queries();
                match event {
                    FromSwarmEvent::ConnectionEstablished { peer_id } => {
                        &&& final(self).spec_connected_peers() == old(
                            self,
                        ).spec_connected_peers().insert(peer_id.0)
                        &&& final(self).spec_pending_queries() == m0.remove(peer_id.0)
                        &&& final(self).spec_pending_events() == old(self).spec_pending_events()
                            + spec_notifications_of(peer_id, pending_entry(m0, peer_id.0))
                    },
                    FromSwarmEvent::ConnectionClosed { peer_id } => {
                        &&& final(self).spec_connected_peers() == old(
                            self,
                        ).spec_connected_peers().remove(peer_id.0)
                        &&& final(self).spec_pending_queries() == m0
                        &&& final(self).spec_pending_events() == old(self).spec_pending_events()
                    },
                    FromSwarmEvent::DialFailure { peer_id } => {
                        &&& final(self).spec_connected_peers() == old(self).spec_connected_peers()
                        &&& final(self).spec_pending_queries() == m0.remove(peer_id.0)
                        &&& final(self).spec_pending_events() == old(self).spec_pending_events()
                            + spec_failures_of(pending_entry(m0, peer_id.0))
                    },
                }
            }),
            final(self).spec_inbound_sessions() == old(self).spec_inbound_sessions(),
            final(self).spec_next_outbound_session_id() == old(
                self,
            ).spec_next_outbound_session_id(),
            final(self).spec_next_inbound_session_id() == old(self).spec_next_inbound_session_id(),
            final(self).issued_outbound_ids() == old(self).issued_outbound_ids(),
            final(self).spec_substream_timeout_millis() == old(
                self,
            ).spec_substream_timeout_millis(),
    {
        match event {
            FromSwarmEvent::ConnectionEstablished { peer_id } => {
                self.connected_peers.insert(peer_id.0);
                let removed = pending_map_remove(&mut self.pending_queries, peer_id.0);
                let ghost q = pending_entry(old(self).spec_pending_queries(), peer_id.0);
                match removed {
                    Some(queries) => {
                        let ghost events0 = self.spec_pending_events();
                        let n = queries.len();
                        let mut i: usize = 0;
                        while i < n
                            invariant
                                n == queries.len(),
                                0 <= i <= n,
                                queries@ == q,
                                self.spec_pending_events() == events0 + spec_notifications_of(
                                    peer_id,
                                    q,
                                ).take(i as int),
                                self.spec_pending_queries() == old(
                                    self,
                                ).spec_pending_queries().remove(peer_id.0),
                                self.spec_connected_peers() == old(
                                    self,
                                ).spec_connected_peers().insert(peer_id.0),
                                self.spec_inbound_sessions() == old(self).spec_inbound_sessions(),
                                self.spec_next_outbound_session_id() == old(
                                    self,
                                ).spec_next_outbound_session_id(),
                                self.spec_next_inbound_session_id() == old(
                                    self,
                                ).spec_next_inbound_session_id(),
                                self.issued_outbound_ids() == old(self).issued_outbound_ids(),
                                self.spec_substream_timeout_millis() == old(
                                    self,
                                ).spec_substream_timeout_millis(),
                            decreases n - i,
                        {
                            let pq = queries[i];
                            self.send_query_to_handler(peer_id, pq.query, pq.outbound_session_id);
                            i = i + 1;
                            proof {
                                assert(self.spec_pending_events() =~= events0
                                    + spec_notifications_of(peer_id, q).take(i as int));
                            }
                        }
                        proof {
                            assert(spec_notifications_of(peer_id, q).take(n as int)
                                =~= spec_notifications_of(peer_id, q));
                        }
                    },
                    None => {
                        proof {
                            assert(self.spec_pending_events() =~= old(self).spec_pending_events()
                                + spec_notifications_of(peer_id, q));
                            assert(self.spec_pending_queries() =~= old(
                                self,
                            ).spec_pending_queries().remove(peer_id.0));
                        }
                    },
                }
            },
            FromSwarmEvent::ConnectionClosed { peer_id } => {
                self.connected_peers.remove(&peer_id.0);
            },
            FromSwarmEvent::DialFailure { peer_id } => {
                let removed = pending_map_remove(&mut self.pending_queries, peer_id.0);
                let ghost q = pending_entry(old(self).spec_pending_queries(), peer_id.0);
                match removed {
                    Some(queries) => {
                        let ghost events0 = self.spec_pending_events();
                        let n = queries.len();
                        let mut i: usize = 0;
                        while i < n
                            invariant
                                n == queries.len(),
                                0 <= i <= n,
                                queries@ == q,
                                self.spec_pending_events() == events0 + spec_failures_of(q).take(
                                    i as int,
                                ),
                                self.spec_pending_queries() == old(
                                    self,
                                ).spec_pending_queries().remove(peer_id.0),
                                self.spec_connected_peers() == old(self).spec_connected_peers(),
                                self.spec_inbound_sessions() == old(self).spec_inbound_sessions(),
                                self.spec_next_outbound_session_id() == old(
                                    self,
                                ).spec_next_outbound_session_id(),
                                self.spec_next_inbound_session_id() == old(
                                    self,
                                ).spec_next_inbound_session_id(),
                                self.issued_outbound_ids() == old(self).issued_outbound_ids(),
                                self.spec_substream_timeout_millis() == old(
                                    self,
                                ).spec_substream_timeout_millis(),
                            decreases n - i,
                        {
                            let pq = queries[i];
                            self.pending_events.push_back(
                                ToSwarmEvent::GenerateEvent(
                                    Event::SessionFailed {
                                        outbound_session_id: pq.outbound_session_id,
                                        error: PeerNotConnected,
                                    },
                                ),
                            );
                            i = i + 1;
                            proof {
                                assert(self.spec_pending_events() =~= events0 + spec_failures_of(
                                    q,
                                ).take(i as int));
                            }
                        }
                        proof {
                            assert(spec_failures_of(q).take(n as int) =~= spec_failures_of(q));
                        }
                    },
                    None => {
                        proof {
                            assert(self.spec_pending_events() =~= old(self).spec_pending_events()
                                + spec_failures_of(q));
                            assert(self.spec_pending_queries() =~= old(
                                self,
                            ).spec_pending_queries().remove(peer_id.0));
                        }
                    },
                }
            },
        }
        proof {
            match event {
                FromSwarmEvent::ConnectionEstablished { peer_id } => {
                    lemma_wf_remove(*old(self), *self, peer_id.0);
                },
                FromSwarmEvent::ConnectionClosed { peer_id: _ } => {
                    lemma_wf_unchanged(*old(self), *self);
                },
                FromSwarmEvent::DialFailure { peer_id } => {
                    lemma_wf_remove(*old(self), *self, peer_id.0);
                },
            }
        }
    }

    /// React to a connection handler's report: a new inbound session gets
    /// the next inbound id and is surfaced as `NewInboundQuery`; outbound
    /// data is surfaced as `ReceivedData`.
    pub fn on_connection_handler_event(&mut self, peer_id: PeerId, event: FromHandlerEvent)
        requires
            old(self).wf(),
            event is NewInboundSession ==> old(self).spec_next_inbound_session_id() < u64::MAX,
        ensures
            final(self).wf(),
            ({
                match event {
                    FromHandlerEvent::NewInboundSession { query } => {
                        let id = InboundSessionId {
                            value: old(self).spec_next_inbound_session_id(),
                        };
                        &&& final(self).spec_next_inbound_session_id() == old(
                            self,
                        ).spec_next_inbound_session_id() + 1
                        &&& final(self).spec_inbound_sessions() == old(
                            self,
                        ).spec_inbound_sessions().insert(id.value)
                        &&& final(self).spec_pending_events() == old(
                            self,
                        ).spec_pending_events().push(
                            ToSwarmEvent::GenerateEvent(
                                Event::NewInboundQuery { query, inbound_session_id: id },
                            ),
                        )
                    },
                    FromHandlerEvent::ReceivedData { data, outbound_session_id } => {
                        &&& final(self).spec_next_inbound_session_id() == old(
                            self,
                        ).spec_next_inbound_session_id()
                        &&& final(self).spec_inbound_sessions() == old(
                            self,
                        ).spec_inbound_sessions()
                        &&& final(self).spec_pending_events() == old(
                            self,
                        ).spec_pending_events().push(
                            ToSwarmEvent::GenerateEvent(
                                Event::ReceivedData { data, outbound_session_id },
                            ),
                        )
                    },
                }
            }),
            final(self).spec_pending_queries() == old(self).spec_pending_queries(),
            final(self).spec_connected_peers() == old(self).spec_connected_peers(),
            final(self).spec_next_outbound_session_id() == old(
                self,
            ).spec_next_outbound_session_id(),
            final(self).issued_outbound_ids() == old(self).issued_outbound_ids(),
            final(self).spec_substream_timeout_millis() == old(
                self,
            ).spec_substream_timeout_millis(),
    {
        let _ = peer_id;
        match event {
            FromHandlerEvent::NewInboundSession { query } => {
                let inbound_session_id = self.next_inbound_session_id;
                self.next_inbound_session_id = InboundSessionId {
                    value: inbound_session_id.value + 1,
                };
                self.inbound_sessions.insert(inbound_session_id.value);
                self.pending_events.push_back(
                    ToSwarmEvent::GenerateEvent(
                        Event::NewInboundQuery { query, inbound_session_id },
                    ),
                );
            },
            FromHandlerEvent::ReceivedData { data, outbound_session_id } => {
                self.pending_events.push_back(
                    ToSwarmEvent::GenerateEvent(Event::ReceivedData { data, outbound_session_id }),
                );
            },
        }
        proof {
            lemma_wf_unchanged(*old(self), *self);
        }
    }

    /// Hand out the oldest queued swarm request, if any.
    pub fn poll(&mut self) -> (r: Option<ToSwarmEvent>)
        requires
            old(self).wf(),
        ensures
            final(self).wf(),
            old(self).spec_pending_events().len() == 0 ==> (r is None
                && final(self).spec_pending_events() == old(self).spec_pending_events()),
            old(self).spec_pending_events().len() > 0 ==> (r == Some(
                old(self).spec_pending_events()[0],
            ) && final(self).spec_pending_events() == old(self).spec_pending_events().skip(1)),
            final(self).spec_pending_queries() == old(self).spec_pending_queries(),
            final(self).spec_connected_peers() == old(self).spec_connected_peers(),
            final(self).spec_inbound_sessions() == old(self).spec_inbound_sessions(),
            final(self).spec_next_outbound_session_id() == old(
                self,
            ).spec_next_outbound_session_id(),
            final(self).spec_next_inbound_session_id() == old(self).spec_next_inbound_session_id(),
            final(self).issued_outbound_ids() == old(self).issued_outbound_ids(),
            final(self).spec_substream_timeout_millis() == old(
                self,
            ).spec_substream_timeout_millis(),
    {
        let r = self.pending_events.pop_front();
        proof {
            lemma_wf_unchanged(*old(self), *self);
            if old(self).spec_pending_events().len() > 0 {
                assert(self.spec_pending_events() =~= old(self).spec_pending_events().skip(1));
            }
        }
        r
    }
}

/// The router invariant survives any step that leaves the issued ids, the
/// next outbound id and the pending queues alone.
proof fn lemma_wf_unchanged(b0: Behaviour, b1: Behaviour)
    requires
        b0.wf(),
        b1.issued_outbound_ids() == b0.issued_outbound_ids(),
        b1.spec_next_outbound_session_id() == b0.spec_next_outbound_session_id(),
        b1.spec_pending_queries() == b0.spec_pending_queries(),
    ensures
        b1.wf(),
{
    assert forall|i: int, j: int|
        0 <= i < j < b1.issued_outbound_ids().len() implies b1.issued_outbound_ids()[i]
        < b1.issued_outbound_ids()[j] by {
        assert(b0.issued_outbound_ids()[i] < b0.issued_outbound_ids()[j]);
    }
    assert forall|i: int|
        0 <= i < b1.issued_outbound_ids().len() implies b1.issued_outbound_ids()[i]
        < b1.spec_next_outbound_session_id() by {
        assert(b0.issued_outbound_ids()[i] < b0.spec_next_outbound_session_id());
    }
    assert forall|p: u64| #[trigger] b1.spec_pending_queries().dom().contains(p) implies queue_wf(
        b1.spec_pending_queries()[p],
        b1.spec_next_outbound_session_id(),
    ) by {
        assert(b0.spec_pending_queries().dom().contains(p));
    }
}

/// The router invariant survives dropping one peer's pending queue.
proof fn lemma_wf_remove(b0: Behaviour, b1: Behaviour, peer: u64)
    requires
        b0.wf(),
        b1.issued_outbound_ids() == b0.issued_outbound_ids(),
        b1.spec_next_outbound_session_id() == b0.spec_next_outbound_session_id(),
        b1.spec_pending_queries() == b0.spec_pending_queries().remove(peer),
    ensures
        b1.wf(),
{
    assert forall|i: int, j: int|
        0 <= i < j < b1.issued_outbound_ids().len() implies b1.issued_outbound_ids()[i]
        < b1.issued_outbound_ids()[j] by {
        assert(b0.issued_outbound_ids()[i] < b0.issued_outbound_ids()[j]);
    }
    assert forall|i: int|
        0 <= i < b1.issued_outbound_ids().len() implies b1.issued_outbound_ids()[i]
        < b1.spec_next_outbound_session_id() by {
        assert(b0.issued_outbound_ids()[i] < b0.spec_next_outbound_session_id());
    }
    assert forall|p: u64| #[trigger] b1.spec_pending_queries().dom().contains(p) implies queue_wf(
        b1.spec_pending_queries()[p],
        b1.spec_next_outbound_session_id(),
    ) by {
        assert(b0.spec_pending_queries().dom().contains(p));
        assert(b1.spec_pending_queries()[p] == b0.spec_pending_queries()[p]);
    }
}

/// The router invariant survives allocating one outbound id without
/// buffering anything.
proof fn lemma_wf_allocate(b0: Behaviour, b1: Behaviour)
    requires
        b0.wf(),
        b0.spec_next_outbound_session_id() < u64::MAX,
        b1.issued_outbound_ids() == b0.issued_outbound_ids().push(
            b0.spec_next_outbound_session_id(),
        ),
        b1.spec_next_outbound_session_id() == b0.spec_next_outbound_session_id() + 1,
        b1.spec_pending_queries() == b0.spec_pending_queries(),
    ensures
        b1.wf(),
{
    assert forall|i: int, j: int|
        0 <= i < j < b1.issued_outbound_ids().len() implies b1.issued_outbound_ids()[i]
        < b1.issued_outbound_ids()[j] by {
        if j + 1 == b1.issued_outbound_ids().len() {
            assert(b0.issued_outbound_ids()[i] < b0.spec_next_outbound_session_id());
        } else {
            assert(b0.issued_outbound_ids()[i] < b0.issued_outbound_ids()[j]);
        }
    }
    assert forall|i: int|
        0 <= i < b1.issued_outbound_ids().len() implies b1.issued_outbound_ids()[i]
        < b1.spec_next_outbound_session_id() by {
        if i + 1 < b1.issued_outbound_ids().len() {
            assert(b0.issued_outbound_ids()[i] < b0.spec_next_outbound_session_id());
        }
    }
    assert forall|p: u64| #[trigger] b1.spec_pending_queries().dom().contains(p) implies queue_wf(
        b1.spec_pending_queries()[p],
        b1.spec_next_outbound_session_id(),
    ) by {
        assert(b0.spec_pending_queries().dom().contains(p));
        lemma_queue_wf_mono(
            b0.spec_pending_queries()[p],
            b0.spec_next_outbound_session_id(),
            b1.spec_next_outbound_session_id(),
        );
    }
}

/// The router invariant survives allocating one outbound id and buffering
/// the query carrying it at the back of its peer's queue.
proof fn lemma_wf_enqueue(b0: Behaviour, b1: Behaviour, peer: u64, pq: PendingQuery)
    requires
        b0.wf(),
        b0.spec_next_outbound_session_id() < u64::MAX,
        pq.outbound_session_id.value == b0.spec_next_outbound_session_id(),
        b1.issued_outbound_ids() == b0.issued_outbound_ids().push(
            b0.spec_next_outbound_session_id(),
        ),
        b1.spec_next_outbound_session_id() == b0.spec_next_outbound_session_id() + 1,
        b1.spec_pending_queries() == b0.spec_pending_queries().insert(
            peer,
            pending_entry(b0.spec_pending_queries(), peer).push(pq),
        ),
    ensures
        b1.wf(),
{
    assert forall|i: int, j: int|
        0 <= i < j < b1.issued_outbound_ids().len() implies b1.issued_outbound_ids()[i]
        < b1.issued_outbound_ids()[j] by {
        if j + 1 == b1.issued_outbound_ids().len() {
            assert(b0.issued_outbound_ids()[i] < b0.spec_next_outbound_session_id());
        } else {
            assert(b0.issued_outbound_ids()[i] < b0.issued_outbound_ids()[j]);
        }
    }
    assert forall|i: int|
        0 <= i < b1.issued_outbound_ids().len() implies b1.issued_outbound_ids()[i]
        < b1.spec_next_outbound_session_id() by {
        if i + 1 < b1.issued_outbound_ids().len() {
            assert(b0.issued_outbound_ids()[i] < b0.spec_next_outbound_session_id());
        }
    }
    assert forall|p: u64| #[trigger] b1.spec_pending_queries().dom().contains(p) implies queue_wf(
        b1.spec_pending_queries()[p],
        b1.spec_next_outbound_session_id(),
    ) by {
        let q0 = pending_entry(b0.spec_pending_queries(), p);
        if p == peer {
            assert(queue_wf(q0, b0.spec_next_outbound_session_id()));
            let q1 = b1.spec_pending_queries()[p];
            assert(q1 == q0.push(pq));
            assert forall|i: int, j: int|
                0 <= i < j < q1.len() implies q1[i].outbound_session_id.value
                < q1[j].outbound_session_id.value by {
                if j + 1 == q1.len() {
                    assert(q0[i].outbound_session_id.value < b0.spec_next_outbound_session_id());
                } else {
                    assert(q0[i].outbound_session_id.value < q0[j].outbound_session_id.value);
                }
            }
            assert forall|i: int|
                0 <= i < q1.len() implies q1[i].outbound_session_id.value
                < b1.spec_next_outbound_session_id() by {
                if i + 1 < q1.len() {
                    assert(q0[i].outbound_session_id.value < b0.spec_next_outbound_session_id());
                }
            }
        } else {
            assert(b0.spec_pending_queries().dom().contains(p));
            assert(b1.spec_pending_queries()[p] == b0.spec_pending_queries()[p]);
            lemma_queue_wf_mono(
                b0.spec_pending_queries()[p],
                b0.spec_next_outbound_session_id(),
                b1.spec_next_outbound_session_id(),
            );
        }
    }
}

/// The ids returned by a router's `send_query` calls, read in call order,
/// are strictly increasing, and so pairwise distinct.
pub proof fn lemma_outbound_session_ids_strictly_increasing(b: &Behaviour)
    requires
        b.wf(),
    ensures
        forall|i: int, j: int|
            0 <= i < j < b.issued_outbound_ids().len() ==> b.issued_outbound_ids()[i]
                < b.issued_outbound_ids()[j],
        forall|i: int, j: int|
            0 <= i < j < b.issued_outbound_ids().len() ==> b.issued_outbound_ids()[i]
                != b.issued_outbound_ids()[j],
{
}

/// A query buffered for a disconnected peer (`send_query` enqueues it at
/// the back of the peer's queue) is notified exactly once when the peer
/// connects: draining the queue yields its notification last, after those
/// of the queries buffered before it, and equal to none of them.
pub proof fn lemma_query_buffered_then_notified(
    m0: Map<u64, Seq<PendingQuery>>,
    peer_id: PeerId,
    pq: PendingQuery,
)
    requires
        queue_wf(pending_entry(m0, peer_id.0), pq.outbound_session_id.value),
    ensures
        ({
            let q1 = pending_entry(spec_enqueue(m0, peer_id.0, pq), peer_id.0);
            let notifs = spec_notifications_of(peer_id, q1);
            &&& q1 == pending_entry(m0, peer_id.0).push(pq)
            &&& notifs.len() == pending_entry(m0, peer_id.0).len() + 1
            &&& notifs.last() == (ToSwarmEvent::NotifyNewQuery {
                peer_id,
                query: pq.query,
                outbound_session_id: pq.outbound_session_id,
            })
            &&& forall|k: int| 0 <= k < notifs.len() - 1 ==> notifs[k] != notifs.last()
        }),
{
    let q0 = pending_entry(m0, peer_id.0);
    let q1 = pending_entry(spec_enqueue(m0, peer_id.0, pq), peer_id.0);
    let notifs = spec_notifications_of(peer_id, q1);
    assert forall|k: int| 0 <= k < notifs.len() - 1 implies notifs[k] != notifs.last() by {
        assert(q0[k].outbound_session_id.value < pq.outbound_session_id.value);
    }
}

/// Draining a well-formed pending queue notifies the handler exactly once
/// per buffered session, in the order the queries were enqueued: the
/// notifications match the queue position by position and are pairwise
/// distinct.
pub proof fn lemma_buffered_queries_notified_once_in_order(
    peer_id: PeerId,
    q: Seq<PendingQuery>,
    next: u64,
)
    requires
        queue_wf(q, next),
    ensures
        spec_notifications_of(peer_id, q).len() == q.len(),
        forall|k: int|
            0 <= k < q.len() ==> spec_notifications_of(peer_id, q)[k]
                == (ToSwarmEvent::NotifyNewQuery {
                peer_id,
                query: q[k].query,
                outbound_session_id: q[k].outbound_session_id,
            }),
        forall|i: int, j: int|
            0 <= i < j < q.len() ==> spec_notifications_of(peer_id, q)[i]
                != spec_notifications_of(peer_id, q)[j],
{
    assert forall|i: int, j: int|
        0 <= i < j < q.len() implies spec_notifications_of(peer_id, q)[i]
        != spec_notifications_of(peer_id, q)[j] by {
        assert(q[i].outbound_session_id.value < q[j].outbound_session_id.value);
    }
}

} // verus!
