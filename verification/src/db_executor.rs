use vstd::prelude::*;

use crate::block::{BlockHeader, Signature};
use crate::{BlockHashOrNumber, BlockQuery};

verus! {

/// Identifier of one registered query, fresh per `DBExecutor` instance.
#[derive(Debug, Default, Copy, Clone, Eq, PartialEq, Hash, Structural)]
pub struct QueryId(pub u64);

/// One item of a session's data stream.  `Fin` is the terminal marker:
/// nothing follows it.
#[derive(Debug, Copy, Clone, Eq, PartialEq, Hash)]
pub enum Data {
    BlockHeaderAndSignature { header: BlockHeader, signature: Option<Signature> },
    Fin,
}

/// Failures of query execution.
#[derive(Debug, Copy, Clone, Eq, PartialEq, Hash)]
pub enum DBExecutorError {
    /// The storage has no block at the given locator; tagged with the query
    /// that asked for it.
    BlockNotFound { block_hash_or_number: BlockHashOrNumber, query_id: QueryId },
    /// Any other storage-level failure.
    Internal,
}

/// What a query task sees of its sink before a send: the consumer has room,
/// or the consumer is gone.
#[derive(Debug, Copy, Clone, Eq, PartialEq, Structural)]
pub enum SinkStatus {
    Ready,
    Closed,
}

/// The outcome of driving a query task through one suspension point.
#[derive(Debug, Copy, Clone, Eq, PartialEq)]
pub enum TaskStep {
    /// The task handed this item to the sink.
    Sent(Data),
    /// The sink was closed, so the task dropped the item it would have sent.
    SendSkipped,
    /// The task is done: it completed with `result`, after sending a final
    /// `Fin` exactly when `sent_fin` holds.
    Finished { sent_fin: bool, result: Result<QueryId, DBExecutorError> },
}

/// The stream item that carries one header.
pub open spec fn spec_data_of(r: Result<BlockHeader, DBExecutorError>) -> Data {
    Data::BlockHeaderAndSignature { header: r->Ok_0, signature: None }
}

/// The first `n` results of a query, as stream items.
pub open spec fn spec_header_data(
    results: Seq<Result<BlockHeader, DBExecutorError>>,
    n: int,
) -> Seq<Data> {
    Seq::new(n as nat, |i: int| spec_data_of(results[i]))
}

/// One registered query run as a cooperative task: it walks the results the
/// storage produced for the query, hands each header to a back-pressured
/// sink, closes the stream with `Fin` on success, and stops at the first
/// error without a `Fin`.  A closed sink silences it but never stalls it.
pub struct QueryTask {
    query_id: QueryId,
    results: Vec<Result<BlockHeader, DBExecutorError>>,
    next_index: usize,
    finished: bool,
    sent: Ghost<Seq<Data>>,
    send_skipped: Ghost<bool>,
}

impl QueryTask {
    /// The query the task serves.
    pub closed spec fn spec_query_id(&self) -> QueryId {
        self.query_id
    }

    /// The results the storage produced, in query order.
    pub closed spec fn spec_results(&self) -> Seq<Result<BlockHeader, DBExecutorError>> {
        self.results@
    }

    /// How many results the task has consumed.
    pub closed spec fn spec_next_index(&self) -> int {
        self.next_index as int
    }

    /// Whether the task has completed.
    pub closed spec fn spec_finished(&self) -> bool {
        self.finished
    }

    /// Everything the task has handed to its sink, in order.
    pub closed spec fn spec_sent(&self) -> Seq<Data> {
        self.sent@
    }

    /// Whether a closed sink ever made the task drop an item.
    pub closed spec fn spec_send_skipped(&self) -> bool {
        self.send_skipped@
    }

    /// An upper bound on the suspension points left before the task is done.
    pub open spec fn steps_remaining(&self) -> int {
        self.spec_results().len() - self.spec_next_index()
            + if self.spec_finished() { 0int } else { 1int }
    }

    /// The task invariant: results are consumed in order, an error freezes
    /// the cursor, and while no send was dropped the sink has received
    /// exactly the consumed headers, plus `Fin` once a full walk finished.
    pub open spec fn wf(&self) -> bool {
        &&& 0 <= self.spec_next_index() <= self.spec_results().len()
        &&& forall|i: int| 0 <= i < self.spec_next_index() ==> self.spec_results()[i] is Ok
        &&& (self.spec_finished() && self.spec_next_index() < self.spec_results().len())
            ==> self.spec_results()[self.spec_next_index()] is Err
        &&& !self.spec_send_skipped() ==> self.spec_sent() == spec_header_data(
            self.spec_results(),
            self.spec_next_index(),
        ) + if self.spec_finished() && self.spec_next_index() == self.spec_results().len() {
            seq![Data::Fin]
        } else {
            Seq::<Data>::empty()
        }
    }

    /// A fresh task for `query_id` over `results`.
    pub fn new(query_id: QueryId, results: Vec<Result<BlockHeader, DBExecutorError>>) -> (t: Self)
        ensures
            t.wf(),
            t.spec_query_id() == query_id,
            t.spec_results() == results@,
            t.spec_next_index() == 0,
            !t.spec_finished(),
            t.spec_sent() == Seq::<Data>::empty(),
            !t.spec_send_skipped(),
    {
        let t = QueryTask {
            query_id,
            results,
            next_index: 0,
            finished: false,
            sent: Ghost(Seq::empty()),
            send_skipped: Ghost(false),
        };
        proof {
            assert(t.spec_sent() =~= spec_header_data(t.spec_results(), 0));
        }
        t
    }

    /// Drive the task to its next suspension point.  Each call consumes one
    /// result or completes the task; a `Closed` sink is never sent to.
    pub fn step(&mut self, sink: SinkStatus) -> (s: TaskStep)
        requires
            old(self).wf(),
            !old(self).spec_finished(),
        ensures
            final(self).wf(),
            final(self).spec_query_id() == old(self).spec_query_id(),
            final(self).spec_results() == old(self).spec_results(),
            final(self).steps_remaining() < old(self).steps_remaining(),
            sink is Closed ==> !(s is Sent) && final(self).spec_sent() == old(self).spec_sent(),
            ({
                let r = old(self).spec_results();
                let ni = old(self).spec_next_index();
                if ni < r.len() {
                    if r[ni] is Err {
                        &&& s matches TaskStep::Finished { sent_fin, result }
                            && !sent_fin && result == Err::<QueryId, DBExecutorError>(r[ni]->Err_0)
                        &&& final(self).spec_finished()
                        &&& final(self).spec_next_index() == ni
                        &&& final(self).spec_sent() == old(self).spec_sent()
                        &&& final(self).spec_send_skipped() == old(self).spec_send_skipped()
                    } else {
                        &&& !final(self).spec_finished()
                        &&& final(self).spec_next_index() == ni + 1
                        &&& if sink is Ready {
                            &&& s == TaskStep::Sent(spec_data_of(r[ni]))
                            &&& final(self).spec_sent() == old(self).spec_sent().push(
                                spec_data_of(r[ni]),
                            )
                            &&& final(self).spec_send_skipped() == old(self).spec_send_skipped()
                        } else {
                            &&& s == TaskStep::SendSkipped
                            &&& final(self).spec_sent() == old(self).spec_sent()
                            &&& final(self).spec_send_skipped()
                        }
                    }
                } else {
                    &&& final(self).spec_finished()
                    &&& final(self).spec_next_index() == ni
                    &&& if sink is Ready {
                        &&& s == (TaskStep::Finished {
                            sent_fin: true,
                            result: Ok(old(self).spec_query_id()),
                        })
                        &&& final(self).spec_sent() == old(self).spec_sent().push(Data::Fin)
                        &&& final(self).spec_send_skipped() == old(self).spec_send_skipped()
                    } else {
                        &&& s == (TaskStep::Finished {
                            sent_fin: false,
                            result: Ok(old(self).spec_query_id()),
                        })
                        &&& final(self).spec_sent() == old(self).spec_sent()
                        &&& final(self).spec_send_skipped()
                    }
                }
            }),
    {
        if self.next_index < self.results.len() {
            match self.results[self.next_index] {
                Err(e) => {
                    self.finished = true;
                    TaskStep::Finished { sent_fin: false, result: Err(e) }
                },
                Ok(header) => {
                    let ghost old_self = *self;
                    self.next_index = self.next_index + 1;
                    match sink {
                        SinkStatus::Ready => {
                            let item = Data::BlockHeaderAndSignature { header, signature: None };
                            proof {
                                self.sent@ = self.sent@.push(item);
                                if !self.spec_send_skipped() {
                                    assert(self.spec_sent() =~= spec_header_data(
                                        self.spec_results(),
                                        self.spec_next_index(),
                                    ));
                                }
                            }
                            TaskStep::Sent(item)
                        },
                        SinkStatus::Closed => {
                            proof {
                                self.send_skipped@ = true;
                            }
                            TaskStep::SendSkipped
                        },
                    }
                },
            }
        } else {
            self.finished = true;
            match sink {
                SinkStatus::Ready => {
                    proof {
                        self.sent@ = self.sent@.push(Data::Fin);
                        if !self.spec_send_skipped() {
                            assert(self.spec_sent() =~= spec_header_data(
                                self.spec_results(),
                                self.spec_next_index(),
                            ) + seq![Data::Fin]);
                        }
                    }
                    TaskStep::Finished { sent_fin: true, result: Ok(self.query_id) }
                },
                SinkStatus::Closed => {
                    proof {
                        self.send_skipped@ = true;
                    }
                    TaskStep::Finished { sent_fin: false, result: Ok(self.query_id) }
                },
            }
        }
    }
}

/// Every registered query that produced headers with no error has its
/// consumer observe exactly those headers, in order, closed by one `Fin`:
/// a finished task whose sink never went away sent just that.
pub proof fn lemma_session_stream_exact(t: &QueryTask)
    requires
        t.wf(),
        t.spec_finished(),
        !t.spec_send_skipped(),
        forall|i: int| 0 <= i < t.spec_results().len() ==> t.spec_results()[i] is Ok,
    ensures
        t.spec_sent() == spec_header_data(t.spec_results(), t.spec_results().len() as int).push(
            Data::Fin,
        ),
{
    assert(t.spec_next_index() == t.spec_results().len());
    assert(t.spec_sent() =~= spec_header_data(t.spec_results(), t.spec_results().len() as int)
        .push(Data::Fin));
}

/// A task stopped by an error sent exactly the headers before the error, in
/// order, and no `Fin`: the terminal signal is left to the manager.
pub proof fn lemma_session_stream_error(t: &QueryTask, k: int)
    requires
        t.wf(),
        t.spec_finished(),
        !t.spec_send_skipped(),
        0 <= k < t.spec_results().len(),
        t.spec_results()[k] is Err,
        forall|i: int| 0 <= i < k ==> t.spec_results()[i] is Ok,
    ensures
        t.spec_sent() == spec_header_data(t.spec_results(), k),
{
    assert(t.spec_next_index() == k);
    assert(t.spec_sent() =~= spec_header_data(t.spec_results(), k));
}

/// However the sink behaves, a task is done within `results.len() + 1`
/// steps of its creation: each step strictly lowers `steps_remaining`,
/// which starts at that bound and never goes below zero.  So dropping the
/// manager, which closes every sink, stops every in-flight task within a
/// bounded number of cooperative steps, with nothing further sent.
pub proof fn lemma_task_steps_bounded(t: &QueryTask)
    requires
        t.wf(),
    ensures
        0 <= t.steps_remaining() <= t.spec_results().len() + 1,
{
}

/// Registers queries, giving each a fresh `QueryId`, and hands back the
/// cooperative task that will stream the query's results.  What the storage
/// returned for the query is taken as input: reading it is the storage
/// engine's part.
pub struct DBExecutor {
    next_query_id: u64,
    issued: Ghost<Seq<u64>>,
}

impl DBExecutor {
    /// The ids handed out so far, in order.
    pub closed spec fn issued_ids(&self) -> Seq<u64> {
        self.issued@
    }

    /// The next id to hand out.
    pub closed spec fn spec_next_query_id(&self) -> u64 {
        self.next_query_id
    }

    /// Ids are handed out in strictly increasing order, all below the next.
    pub open spec fn wf(&self) -> bool {
        &&& forall|i: int, j: int|
            0 <= i < j < self.issued_ids().len() ==> self.issued_ids()[i] < self.issued_ids()[j]
        &&& forall|i: int|
            0 <= i < self.issued_ids().len() ==> self.issued_ids()[i]
                < self.spec_next_query_id()
    }

    pub fn new() -> (e: Self)
        ensures
            e.wf(),
            e.issued_ids() == Seq::<u64>::empty(),
            e.spec_next_query_id() == 0,
    {
        DBExecutor { next_query_id: 0, issued: Ghost(Seq::empty()) }
    }

    /// Record the query and spawn its task over the results the storage
    /// returned for it.  The id is fresh: distinct from every id this
    /// executor returned before.
    pub fn register_query(
        &mut self,
        query: BlockQuery,
        results: Vec<Result<BlockHeader, DBExecutorError>>,
    ) -> (r: (QueryId, QueryTask))
        requires
            old(self).wf(),
            old(self).spec_next_query_id() < u64::MAX,
            query.is_valid(),
        ensures
            final(self).wf(),
            r.0 == QueryId(old(self).spec_next_query_id()),
            final(self).issued_ids() == old(self).issued_ids().push(r.0.0),
            final(self).spec_next_query_id() == old(self).spec_next_query_id() + 1,
            r.1.wf(),
            r.1.spec_query_id() == r.0,
            r.1.spec_results() == results@,
            !r.1.spec_finished(),
            r.1.spec_next_index() == 0,
            r.1.spec_sent() == Seq::<Data>::empty(),
            !r.1.spec_send_skipped(),
    {
        let query_id = QueryId(self.next_query_id);
        self.next_query_id = self.next_query_id + 1;
        proof {
            self.issued@ = self.issued@.push(query_id.0);
            assert forall|i: int, j: int|
                0 <= i < j < self.issued_ids().len() implies self.issued_ids()[i]
                < self.issued_ids()[j] by {
                if j + 1 == self.issued_ids().len() {
                    assert(old(self).issued_ids()[i] < old(self).spec_next_query_id());
                }
            }
        }
        let task = QueryTask::new(query_id, results);
        (query_id, task)
    }
}

/// Every id `register_query` returns is distinct from all the ids the same
/// executor returned before it.
pub proof fn lemma_query_ids_distinct(e: &DBExecutor)
    requires
        e.wf(),
    ensures
        forall|i: int, j: int|
            0 <= i < j < e.issued_ids().len() ==> e.issued_ids()[i] != e.issued_ids()[j],
{
}

} // verus!
