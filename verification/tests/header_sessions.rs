use papyrus_network::behaviour::Event;
use papyrus_network::block::{BlockHeader, BlockNumber};
use papyrus_network::db_executor::{
    DBExecutor, DBExecutorError, Data, QueryId, QueryTask, SinkStatus, TaskStep,
};
use papyrus_network::network_manager::{GenericNetworkManager, ManagerAction};
use papyrus_network::streamed_data::InboundSessionId;
use papyrus_network::{BlockHashOrNumber, BlockQuery, Direction};

const HEADER_BUFFER_SIZE: usize = 100;

fn query(limit: u64) -> BlockQuery {
    BlockQuery {
        start_block: BlockHashOrNumber::Number(BlockNumber(0)),
        direction: Direction::Forward,
        limit,
        step: 1,
    }
}

fn header(i: u64) -> BlockHeader {
    BlockHeader { block_number: BlockNumber(i) }
}

fn header_data(i: u64) -> Data {
    Data::BlockHeaderAndSignature { header: header(i), signature: None }
}

/// Drive a task with an always-ready sink; collect what it sends and how it
/// completes.
fn run_task(task: &mut QueryTask) -> (Vec<Data>, Result<QueryId, DBExecutorError>) {
    let mut sent = Vec::new();
    loop {
        match task.step(SinkStatus::Ready) {
            TaskStep::Sent(data) => sent.push(data),
            TaskStep::SendSkipped => {}
            TaskStep::Finished { sent_fin, result } => {
                if sent_fin {
                    sent.push(Data::Fin);
                }
                return (sent, result);
            }
        }
    }
}

#[test]
fn process_incoming_query() {
    let mut executor = DBExecutor::new();
    let mut manager = GenericNetworkManager::inner_new(HEADER_BUFFER_SIZE);

    // The router surfaces a new inbound query; the manager asks for its
    // registration.
    let inbound_session_id = InboundSessionId { value: 0 };
    let action = manager.handle_swarm_event(Event::NewInboundQuery {
        query: query(5),
        inbound_session_id,
    });
    assert_eq!(action, ManagerAction::RegisterQuery { query: query(5), inbound_session_id });

    // The storage has headers for blocks 0..5.
    let results: Vec<Result<BlockHeader, DBExecutorError>> =
        (0..5).map(|i| Ok(header(i))).collect();
    let (query_id, mut task) = executor.register_query(query(5), results);
    assert!(manager.on_query_registered(inbound_session_id, query_id));

    // The task streams into its channel; the manager forwards every item to
    // the session.
    let (sent, completion) = run_task(&mut task);
    let mut session_data = Vec::new();
    for data in sent {
        match manager.handle_inbound_data(inbound_session_id, data) {
            ManagerAction::SendData { data, .. } => session_data.push(data),
            other => panic!("unexpected action {other:?}"),
        }
    }
    let expected: Vec<Data> = (0..5).map(header_data).chain([Data::Fin]).collect();
    assert_eq!(session_data, expected);
    assert_eq!(completion, Ok(query_id));
    assert_eq!(manager.handle_db_executor_result(completion), ManagerAction::NoAction);

    // Fin closed the session: later items for it are dropped.
    assert_eq!(
        manager.handle_inbound_data(inbound_session_id, header_data(9)),
        ManagerAction::NoAction,
    );
}

#[test]
fn handle_db_executor_error() {
    let mut executor = DBExecutor::new();
    let mut manager = GenericNetworkManager::inner_new(HEADER_BUFFER_SIZE);

    let inbound_session_id = InboundSessionId { value: 0 };
    manager.handle_swarm_event(Event::NewInboundQuery { query: query(5), inbound_session_id });

    // The storage has headers for blocks 0..3, then the next block is
    // missing.
    let mut results: Vec<Result<BlockHeader, DBExecutorError>> =
        (0..3).map(|i| Ok(header(i))).collect();
    results.push(Err(DBExecutorError::BlockNotFound {
        block_hash_or_number: BlockHashOrNumber::Number(BlockNumber(3)),
        query_id: QueryId(0),
    }));
    let (query_id, mut task) = executor.register_query(query(5), results);
    assert_eq!(query_id, QueryId(0));
    assert!(manager.on_query_registered(inbound_session_id, query_id));

    // The task stops at the error and does not send Fin itself.
    let (sent, completion) = run_task(&mut task);
    assert_eq!(sent, (0..3).map(header_data).collect::<Vec<_>>());
    assert_eq!(
        completion,
        Err(DBExecutorError::BlockNotFound {
            block_hash_or_number: BlockHashOrNumber::Number(BlockNumber(3)),
            query_id: QueryId(0),
        }),
    );

    let mut session_data = Vec::new();
    for data in sent {
        match manager.handle_inbound_data(inbound_session_id, data) {
            ManagerAction::SendData { data, .. } => session_data.push(data),
            other => panic!("unexpected action {other:?}"),
        }
    }
    // The completion error reaches the manager, which aborts the session:
    // a best-effort Fin goes out and the entry is dropped.
    match manager.handle_db_executor_result(completion) {
        ManagerAction::AbortInboundSession { inbound_session_id: aborted } => {
            assert_eq!(aborted, inbound_session_id);
            session_data.push(Data::Fin);
        }
        other => panic!("unexpected action {other:?}"),
    }
    let expected: Vec<Data> = (0..3).map(header_data).chain([Data::Fin]).collect();
    assert_eq!(session_data, expected);

    // The session is gone; a second completion for the query finds nothing.
    assert_eq!(
        manager.handle_db_executor_result(Err(DBExecutorError::BlockNotFound {
            block_hash_or_number: BlockHashOrNumber::Number(BlockNumber(3)),
            query_id: QueryId(0),
        })),
        ManagerAction::NoAction,
    );
}

#[test]
fn internal_error_is_only_logged() {
    let mut manager = GenericNetworkManager::inner_new(HEADER_BUFFER_SIZE);
    assert_eq!(
        manager.handle_db_executor_result(Err(DBExecutorError::Internal)),
        ManagerAction::NoAction,
    );
}

#[test]
fn query_ids_are_fresh_per_executor() {
    let mut executor = DBExecutor::new();
    let (id0, _task) = executor.register_query(query(1), vec![Ok(header(0))]);
    let (id1, _task) = executor.register_query(query(2), vec![Ok(header(1))]);
    let (id2, _task) = executor.register_query(query(1), vec![]);
    assert_eq!(id0, QueryId(0));
    assert_eq!(id1, QueryId(1));
    assert_eq!(id2, QueryId(2));
}

#[test]
fn empty_result_set_sends_only_fin() {
    let mut executor = DBExecutor::new();
    let (query_id, mut task) = executor.register_query(query(1), vec![]);
    let (sent, completion) = run_task(&mut task);
    assert_eq!(sent, vec![Data::Fin]);
    assert_eq!(completion, Ok(query_id));
}

#[test]
fn closed_sink_terminates_the_task_quickly_and_silently() {
    let mut executor = DBExecutor::new();
    let results: Vec<Result<BlockHeader, DBExecutorError>> =
        (0..4).map(|i| Ok(header(i))).collect();
    let (query_id, mut task) = executor.register_query(query(4), results);

    // The consumer is gone: every send is skipped and the task completes
    // within results + 1 steps, sending nothing.
    let mut steps = 0usize;
    loop {
        steps += 1;
        match task.step(SinkStatus::Closed) {
            TaskStep::Sent(data) => panic!("sent {data:?} on a closed sink"),
            TaskStep::SendSkipped => {}
            TaskStep::Finished { sent_fin, result } => {
                assert!(!sent_fin);
                assert_eq!(result, Ok(query_id));
                break;
            }
        }
    }
    assert!(steps <= 5);
}

#[test]
fn sink_closing_midway_stops_further_sends() {
    let mut executor = DBExecutor::new();
    let results: Vec<Result<BlockHeader, DBExecutorError>> =
        (0..4).map(|i| Ok(header(i))).collect();
    let (_query_id, mut task) = executor.register_query(query(4), results);

    // Two items go through, then the consumer disappears.
    assert_eq!(task.step(SinkStatus::Ready), TaskStep::Sent(header_data(0)));
    assert_eq!(task.step(SinkStatus::Ready), TaskStep::Sent(header_data(1)));
    assert_eq!(task.step(SinkStatus::Closed), TaskStep::SendSkipped);
    assert_eq!(task.step(SinkStatus::Closed), TaskStep::SendSkipped);
    match task.step(SinkStatus::Closed) {
        TaskStep::Finished { sent_fin, result: _ } => assert!(!sent_fin),
        other => panic!("unexpected step {other:?}"),
    }
}

#[test]
fn two_sessions_interleave_but_each_stays_ordered() {
    let mut executor = DBExecutor::new();
    let mut manager = GenericNetworkManager::inner_new(HEADER_BUFFER_SIZE);

    let first = InboundSessionId { value: 0 };
    let second = InboundSessionId { value: 1 };
    manager.handle_swarm_event(Event::NewInboundQuery { query: query(3), inbound_session_id: first });
    manager.handle_swarm_event(Event::NewInboundQuery {
        query: query(3),
        inbound_session_id: second,
    });

    let (qid0, mut task0) =
        executor.register_query(query(3), (0..3).map(|i| Ok(header(i))).collect());
    let (qid1, mut task1) =
        executor.register_query(query(3), (10..13).map(|i| Ok(header(i))).collect());
    assert!(manager.on_query_registered(first, qid0));
    assert!(manager.on_query_registered(second, qid1));
    // A duplicate registration of either id is refused.
    assert!(!manager.on_query_registered(first, QueryId(9)));
    assert!(!manager.on_query_registered(InboundSessionId { value: 9 }, qid1));

    // The two tasks run interleaved; the manager routes each item by its
    // session.
    let mut out0 = Vec::new();
    let mut out1 = Vec::new();
    let mut done0 = false;
    let mut done1 = false;
    while !done0 || !done1 {
        if !done0 {
            match task0.step(SinkStatus::Ready) {
                TaskStep::Sent(data) => match manager.handle_inbound_data(first, data) {
                    ManagerAction::SendData { data, .. } => out0.push(data),
                    other => panic!("unexpected action {other:?}"),
                },
                TaskStep::SendSkipped => {}
                TaskStep::Finished { sent_fin, result } => {
                    assert!(sent_fin);
                    assert_eq!(result, Ok(qid0));
                    match manager.handle_inbound_data(first, Data::Fin) {
                        ManagerAction::SendData { data, .. } => out0.push(data),
                        other => panic!("unexpected action {other:?}"),
                    }
                    done0 = true;
                }
            }
        }
        if !done1 {
            match task1.step(SinkStatus::Ready) {
                TaskStep::Sent(data) => match manager.handle_inbound_data(second, data) {
                    ManagerAction::SendData { data, .. } => out1.push(data),
                    other => panic!("unexpected action {other:?}"),
                },
                TaskStep::SendSkipped => {}
                TaskStep::Finished { sent_fin, result } => {
                    assert!(sent_fin);
                    assert_eq!(result, Ok(qid1));
                    match manager.handle_inbound_data(second, Data::Fin) {
                        ManagerAction::SendData { data, .. } => out1.push(data),
                        other => panic!("unexpected action {other:?}"),
                    }
                    done1 = true;
                }
            }
        }
    }
    let expected0: Vec<Data> = (0..3).map(header_data).chain([Data::Fin]).collect();
    let expected1: Vec<Data> = (10..13).map(header_data).chain([Data::Fin]).collect();
    assert_eq!(out0, expected0);
    assert_eq!(out1, expected1);
}
