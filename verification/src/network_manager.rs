use vstd::prelude::*;

use crate::behaviour::{Event, PeerNotConnected};
use crate::db_executor::{DBExecutorError, Data, QueryId};
use crate::streamed_data::{InboundSessionId, OutboundSessionId};
use crate::BlockQuery;

verus! {

/// One open inbound session the manager tracks: which query execution
/// feeds it.
#[derive(Debug, Copy, Clone, Eq, PartialEq, Structural)]
pub struct InboundBinding {
    pub inbound_session_id: InboundSessionId,
    pub query_id: QueryId,
}

/// What the manager asks its surroundings to do after consuming one event.
#[derive(Debug, Copy, Clone, Eq, PartialEq)]
pub enum ManagerAction {
    /// Open a bounded channel of the configured capacity and register the
    /// query with the DB executor, whose items will flow to this session.
    RegisterQuery { query: BlockQuery, inbound_session_id: InboundSessionId },
    /// Forward this item to the session router for this inbound session.
    SendData { data: Data, inbound_session_id: InboundSessionId },
    /// Deliver this item to the consumer of this outbound session.
    DeliverData { data: Data, outbound_session_id: OutboundSessionId },
    /// Abort this inbound session: a best-effort terminal `Fin` to the
    /// router, then nothing more flows on it.
    AbortInboundSession { inbound_session_id: InboundSessionId },
    /// Surface this outbound session's failure to its consumer.
    ReportOutboundFailure { outbound_session_id: OutboundSessionId, error: PeerNotConnected },
    /// Nothing to do; the event was logged or out of date.
    NoAction,
}

/// Whether the bindings hold this inbound session.
pub open spec fn has_inbound(s: Seq<InboundBinding>, id: InboundSessionId) -> bool {
    exists|k: int| 0 <= k < s.len() && s[k].inbound_session_id == id
}

/// Whether the bindings hold this query.
pub open spec fn has_query(s: Seq<InboundBinding>, qid: QueryId) -> bool {
    exists|k: int| 0 <= k < s.len() && s[k].query_id == qid
}

/// Pairwise distinctness of both keys of the bindings.
pub open spec fn bindings_distinct(s: Seq<InboundBinding>) -> bool {
    forall|i: int, j: int|
        0 <= i < j < s.len() ==> s[i].inbound_session_id != s[j].inbound_session_id
            && s[i].query_id != s[j].query_id
}

/// Distinctness survives a swap-removal of one binding.
proof fn lemma_distinct_after_swap_remove(s0: Seq<InboundBinding>, s1: Seq<InboundBinding>, k: int)
    requires
        bindings_distinct(s0),
        0 <= k < s0.len(),
        s1 == s0.update(k, s0.last()).drop_last(),
    ensures
        bindings_distinct(s1),
{
    assert forall|i: int, j: int|
        0 <= i < j < s1.len() implies s1[i].inbound_session_id != s1[j].inbound_session_id
        && s1[i].query_id != s1[j].query_id by {
        if i == k {
            assert(s1[i] == s0[s0.len() - 1]);
            assert(s1[j] == s0[j]);
        } else if j == k {
            assert(s1[j] == s0[s0.len() - 1]);
            assert(s1[i] == s0[i]);
        } else {
            assert(s1[i] == s0[i]);
            assert(s1[j] == s0[j]);
        }
    }
}

/// The network manager's session-tracking state: it pumps the router, the
/// discovery stream and the DB executor, translating each event into the
/// action its surroundings must perform.  It owns the map from open inbound
/// sessions to the query executions that feed them.
pub struct GenericNetworkManager {
    header_buffer_size: usize,
    inbound_sessions: Vec<InboundBinding>,
}

impl GenericNetworkManager {
    /// The capacity of each inbound session's bounded header channel.
    pub closed spec fn spec_header_buffer_size(&self) -> usize {
        self.header_buffer_size
    }

    /// The open inbound sessions with their query ids.
    pub closed spec fn spec_bindings(&self) -> Seq<InboundBinding> {
        self.inbound_sessions@
    }

    /// The manager invariant: every open inbound session is bound to
    /// exactly one query and every query feeds exactly one session.
    pub open spec fn wf(&self) -> bool {
        bindings_distinct(self.spec_bindings())
    }

    /// The dependency-injected constructor: the swarm and the executor stay
    /// with the loop that owns the I/O; the manager starts with no open
    /// inbound session.
    pub fn inner_new(header_buffer_size: usize) -> (m: Self)
        ensures
            m.wf(),
            m.spec_header_buffer_size() == header_buffer_size,
            m.spec_bindings() == Seq::<InboundBinding>::empty(),
    {
        GenericNetworkManager { header_buffer_size, inbound_sessions: Vec::new() }
    }

    /// The index of the binding for this inbound session, if one is open.
    fn find_by_inbound(&self, inbound_session_id: InboundSessionId) -> (r: Option<usize>)
        ensures
            match r {
                Some(k) => 0 <= k < self.spec_bindings().len()
                    && self.spec_bindings()[k as int].inbound_session_id == inbound_session_id,
                None => !has_inbound(self.spec_bindings(), inbound_session_id),
            },
    {
        let mut k: usize = 0;
        while k < self.inbound_sessions.len()
            invariant
                0 <= k <= self.spec_bindings().len(),
                forall|i: int|
                    0 <= i < k ==> self.spec_bindings()[i].inbound_session_id
                        != inbound_session_id,
            decreases self.spec_bindings().len() - k,
        {
            if self.inbound_sessions[k].inbound_session_id == inbound_session_id {
                return Some(k);
            }
            k = k + 1;
        }
        None
    }

    /// The index of the binding for this query, if its session is open.
    fn find_by_query(&self, query_id: QueryId) -> (r: Option<usize>)
        ensures
            match r {
                Some(k) => 0 <= k < self.spec_bindings().len()
                    && self.spec_bindings()[k as int].query_id == query_id,
                None => !has_query(self.spec_bindings(), query_id),
            },
    {
        let mut k: usize = 0;
        while k < self.inbound_sessions.len()
            invariant
                0 <= k <= self.spec_bindings().len(),
                forall|i: int| 0 <= i < k ==> self.spec_bindings()[i].query_id != query_id,
            decreases self.spec_bindings().len() - k,
        {
            if self.inbound_sessions[k].query_id == query_id {
                return Some(k);
            }
            k = k + 1;
        }
        None
    }

    /// Translate one router event: a new inbound query is to be registered
    /// with the executor, received data goes to its consumer, a failed
    /// outbound session is reported to its consumer.  Nothing changes here:
    /// the session is tracked once `on_query_registered` ties it to its
    /// query.
    pub fn handle_swarm_event(&mut self, event: Event) -> (a: ManagerAction)
        requires
            old(self).wf(),
        ensures
            final(self).wf(),
            final(self).spec_bindings() == old(self).spec_bindings(),
            final(self).spec_header_buffer_size() == old(self).spec_header_buffer_size(),
            a == match event {
                Event::NewInboundQuery { query, inbound_session_id } =>
                    ManagerAction::RegisterQuery { query, inbound_session_id },
                Event::ReceivedData { data, outbound_session_id } =>
                    ManagerAction::DeliverData { data, outbound_session_id },
                Event::SessionFailed { outbound_session_id, error } =>
                    ManagerAction::ReportOutboundFailure { outbound_session_id, error },
            },
    {
        match event {
            Event::NewInboundQuery { query, inbound_session_id } => ManagerAction::RegisterQuery {
                query,
                inbound_session_id,
            },
            Event::ReceivedData { data, outbound_session_id } => ManagerAction::DeliverData {
                data,
                outbound_session_id,
            },
            Event::SessionFailed { outbound_session_id, error } =>
                ManagerAction::ReportOutboundFailure { outbound_session_id, error },
        }
    }

    /// Record that the executor registered `query_id` for this inbound
    /// session.  True when the binding is new; false, with nothing changed,
    /// when either id is already bound — each id is observed as newly
    /// created at most once.
    pub fn on_query_registered(
        &mut self,
        inbound_session_id: InboundSessionId,
        query_id: QueryId,
    ) -> (r: bool)
        requires
            old(self).wf(),
        ensures
            final(self).wf(),
            final(self).spec_header_buffer_size() == old(self).spec_header_buffer_size(),
            if has_inbound(old(self).spec_bindings(), inbound_session_id) || has_query(
                old(self).spec_bindings(),
                query_id,
            ) {
                !r && final(self).spec_bindings() == old(self).spec_bindings()
            } else {
                r && final(self).spec_bindings() == old(self).spec_bindings().push(
                    InboundBinding { inbound_session_id, query_id },
                )
            },
    {
        let already = match self.find_by_inbound(inbound_session_id) {
            Some(_) => true,
            None => matches!(self.find_by_query(query_id), Some(_)),
        };
        if already {
            return false;
        }
        self.inbound_sessions.push(InboundBinding { inbound_session_id, query_id });
        proof {
            let s0 = old(self).spec_bindings();
            let s1 = self.spec_bindings();
            assert forall|i: int, j: int|
                0 <= i < j < s1.len() implies s1[i].inbound_session_id
                != s1[j].inbound_session_id && s1[i].query_id != s1[j].query_id by {
                if j + 1 == s1.len() {
                    assert(!(s0[i].inbound_session_id == inbound_session_id));
                    assert(!(s0[i].query_id == query_id));
                } else {
                    assert(s0[i].inbound_session_id != s0[j].inbound_session_id);
                }
            }
        }
        true
    }

    /// Forward one item arriving from an inbound session's channel: it goes
    /// to the router, and a `Fin` also closes the session here — each id is
    /// observed as terminated at most once.  An item for a session that is
    /// not open is dropped.
    pub fn handle_inbound_data(
        &mut self,
        inbound_session_id: InboundSessionId,
        data: Data,
    ) -> (a: ManagerAction)
        requires
            old(self).wf(),
        ensures
            final(self).wf(),
            final(self).spec_header_buffer_size() == old(self).spec_header_buffer_size(),
            ({
                let s0 = old(self).spec_bindings();
                let s1 = final(self).spec_bindings();
                if !has_inbound(s0, inbound_session_id) {
                    a == ManagerAction::NoAction && s1 == s0
                } else {
                    &&& a == (ManagerAction::SendData { data, inbound_session_id })
                    &&& if data is Fin {
                        exists|k: int|
                            0 <= k < s0.len() && s0[k].inbound_session_id == inbound_session_id
                                && s1 == s0.update(k, s0.last()).drop_last()
                    } else {
                        s1 == s0
                    }
                }
            }),
    {
        let found = self.find_by_inbound(inbound_session_id);
        match found {
            None => ManagerAction::NoAction,
            Some(k) => {
                if matches!(data, Data::Fin) {
                    self.inbound_sessions.swap_remove(k);
                    proof {
                        lemma_distinct_after_swap_remove(
                            old(self).spec_bindings(),
                            self.spec_bindings(),
                            k as int,
                        );
                    }
                }
                ManagerAction::SendData { data, inbound_session_id }
            },
        }
    }

    /// Consume one completion of the DB executor.  A successful query needs
    /// nothing more.  A failed query aborts the inbound session it was
    /// feeding, when that session is still open; an `Internal` failure
    /// carries no query id and is only logged.
    pub fn handle_db_executor_result(
        &mut self,
        result: Result<QueryId, DBExecutorError>,
    ) -> (a: ManagerAction)
        requires
            old(self).wf(),
        ensures
            final(self).wf(),
            final(self).spec_header_buffer_size() == old(self).spec_header_buffer_size(),
            ({
                let s0 = old(self).spec_bindings();
                let s1 = final(self).spec_bindings();
                match result {
                    Ok(_) => a == ManagerAction::NoAction && s1 == s0,
                    Err(DBExecutorError::Internal) => a == ManagerAction::NoAction && s1 == s0,
                    Err(DBExecutorError::BlockNotFound { query_id, .. }) => {
                        if has_query(s0, query_id) {
                            exists|k: int|
                                0 <= k < s0.len() && s0[k].query_id == query_id && a
                                    == (ManagerAction::AbortInboundSession {
                                    inbound_session_id: s0[k].inbound_session_id,
                                }) && s1 == s0.update(k, s0.last()).drop_last()
                        } else {
                            a == ManagerAction::NoAction && s1 == s0
                        }
                    },
                }
            }),
    {
        match result {
            Ok(query_id) => {
                let _ = query_id;
                ManagerAction::NoAction
            },
            Err(DBExecutorError::Internal) => ManagerAction::NoAction,
            Err(DBExecutorError::BlockNotFound { block_hash_or_number, query_id }) => {
                let _ = block_hash_or_number;
                let found = self.find_by_query(query_id);
                match found {
                    None => ManagerAction::NoAction,
                    Some(k) => {
                        let binding = self.inbound_sessions[k];
                        self.inbound_sessions.swap_remove(k);
                        proof {
                            lemma_distinct_after_swap_remove(
                                old(self).spec_bindings(),
                                self.spec_bindings(),
                                k as int,
                            );
                        }
                        ManagerAction::AbortInboundSession {
                            inbound_session_id: binding.inbound_session_id,
                        }
                    },
                }
            },
        }
    }
}

/// At most one binding per inbound session id and per query id: the manager
/// observes each id as newly created at most once and as terminated at most
/// once.
pub proof fn lemma_bindings_unique(m: &GenericNetworkManager)
    requires
        m.wf(),
    ensures
        forall|i: int, j: int|
            0 <= i < j < m.spec_bindings().len() ==> m.spec_bindings()[i].inbound_session_id
                != m.spec_bindings()[j].inbound_session_id && m.spec_bindings()[i].query_id
                != m.spec_bindings()[j].query_id,
{
}

} // verus!

