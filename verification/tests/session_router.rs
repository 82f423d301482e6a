use papyrus_network::behaviour::{
    Behaviour, Event, FromHandlerEvent, FromSwarmEvent, PeerNotConnected, SessionIdNotFoundError,
    ToSwarmEvent,
};
use papyrus_network::block::{BlockHeader, BlockNumber};
use papyrus_network::db_executor::Data;
use papyrus_network::streamed_data::{InboundSessionId, OutboundSessionId};
use papyrus_network::{BlockHashOrNumber, BlockQuery, Direction, PeerId};

fn query(start: u64) -> BlockQuery {
    BlockQuery {
        start_block: BlockHashOrNumber::Number(BlockNumber(start)),
        direction: Direction::Forward,
        limit: 5,
        step: 1,
    }
}

fn drain(b: &mut Behaviour) -> Vec<ToSwarmEvent> {
    let mut events = Vec::new();
    while let Some(event) = b.poll() {
        events.push(event);
    }
    events
}

#[test]
fn send_query_ids_strictly_increase() {
    let mut b = Behaviour::new(10_000);
    let mut last: Option<u64> = None;
    for i in 0..10u64 {
        let id = b.send_query(query(i), PeerId(i % 3));
        if let Some(prev) = last {
            assert!(id.value > prev);
        }
        last = Some(id.value);
    }
}

#[test]
fn send_query_to_connected_peer_notifies_at_once() {
    let mut b = Behaviour::new(10_000);
    b.on_swarm_event(FromSwarmEvent::ConnectionEstablished { peer_id: PeerId(9) });
    assert_eq!(drain(&mut b), vec![]);
    let id = b.send_query(query(0), PeerId(9));
    assert_eq!(
        drain(&mut b),
        vec![ToSwarmEvent::NotifyNewQuery {
            peer_id: PeerId(9),
            query: query(0),
            outbound_session_id: id,
        }],
    );
}

#[test]
fn send_query_to_disconnected_peer_dials_and_buffers() {
    let mut b = Behaviour::new(10_000);
    let id0 = b.send_query(query(0), PeerId(7));
    let id1 = b.send_query(query(1), PeerId(7));
    // One dial request per send_query while the peer stays disconnected.
    assert_eq!(
        drain(&mut b),
        vec![
            ToSwarmEvent::Dial { peer_id: PeerId(7) },
            ToSwarmEvent::Dial { peer_id: PeerId(7) },
        ],
    );
    // On connect, exactly one notification per buffered query, FIFO.
    b.on_swarm_event(FromSwarmEvent::ConnectionEstablished { peer_id: PeerId(7) });
    assert_eq!(
        drain(&mut b),
        vec![
            ToSwarmEvent::NotifyNewQuery {
                peer_id: PeerId(7),
                query: query(0),
                outbound_session_id: id0,
            },
            ToSwarmEvent::NotifyNewQuery {
                peer_id: PeerId(7),
                query: query(1),
                outbound_session_id: id1,
            },
        ],
    );
    // The pending entry is gone: connecting again notifies nothing.
    b.on_swarm_event(FromSwarmEvent::ConnectionEstablished { peer_id: PeerId(7) });
    assert_eq!(drain(&mut b), vec![]);
}

#[test]
fn connection_closed_makes_next_query_dial_again() {
    let mut b = Behaviour::new(10_000);
    b.on_swarm_event(FromSwarmEvent::ConnectionEstablished { peer_id: PeerId(4) });
    let _ = b.send_query(query(0), PeerId(4));
    drain(&mut b);
    b.on_swarm_event(FromSwarmEvent::ConnectionClosed { peer_id: PeerId(4) });
    let _ = b.send_query(query(1), PeerId(4));
    let events = drain(&mut b);
    assert_eq!(events, vec![ToSwarmEvent::Dial { peer_id: PeerId(4) }]);
}

#[test]
fn dial_failure_fails_each_pending_session() {
    let mut b = Behaviour::new(10_000);
    let id0 = b.send_query(query(0), PeerId(2));
    let id1 = b.send_query(query(1), PeerId(2));
    drain(&mut b);
    b.on_swarm_event(FromSwarmEvent::DialFailure { peer_id: PeerId(2) });
    assert_eq!(
        drain(&mut b),
        vec![
            ToSwarmEvent::GenerateEvent(Event::SessionFailed {
                outbound_session_id: id0,
                error: PeerNotConnected,
            }),
            ToSwarmEvent::GenerateEvent(Event::SessionFailed {
                outbound_session_id: id1,
                error: PeerNotConnected,
            }),
        ],
    );
    // Nothing left for the peer: a later connect notifies nothing.
    b.on_swarm_event(FromSwarmEvent::ConnectionEstablished { peer_id: PeerId(2) });
    assert_eq!(drain(&mut b), vec![]);
}

#[test]
fn inbound_sessions_get_fresh_ids_and_surface_queries() {
    let mut b = Behaviour::new(10_000);
    b.on_connection_handler_event(PeerId(1), FromHandlerEvent::NewInboundSession {
        query: query(0),
    });
    b.on_connection_handler_event(PeerId(1), FromHandlerEvent::NewInboundSession {
        query: query(5),
    });
    assert_eq!(
        drain(&mut b),
        vec![
            ToSwarmEvent::GenerateEvent(Event::NewInboundQuery {
                query: query(0),
                inbound_session_id: InboundSessionId { value: 0 },
            }),
            ToSwarmEvent::GenerateEvent(Event::NewInboundQuery {
                query: query(5),
                inbound_session_id: InboundSessionId { value: 1 },
            }),
        ],
    );
}

#[test]
fn received_data_is_surfaced_for_its_outbound_session() {
    let mut b = Behaviour::new(10_000);
    let data = Data::BlockHeaderAndSignature {
        header: BlockHeader { block_number: BlockNumber(3) },
        signature: None,
    };
    b.on_connection_handler_event(PeerId(1), FromHandlerEvent::ReceivedData {
        data,
        outbound_session_id: OutboundSessionId { value: 8 },
    });
    assert_eq!(
        drain(&mut b),
        vec![ToSwarmEvent::GenerateEvent(Event::ReceivedData {
            data,
            outbound_session_id: OutboundSessionId { value: 8 },
        })],
    );
}

#[test]
fn send_data_forwards_and_fin_closes_the_session() {
    let mut b = Behaviour::new(10_000);
    b.on_connection_handler_event(PeerId(1), FromHandlerEvent::NewInboundSession {
        query: query(0),
    });
    drain(&mut b);
    let id = InboundSessionId { value: 0 };
    let header = Data::BlockHeaderAndSignature {
        header: BlockHeader { block_number: BlockNumber(0) },
        signature: None,
    };
    assert_eq!(b.send_data(header, id), Ok(()));
    assert_eq!(b.send_data(Data::Fin, id), Ok(()));
    // Fin closed the session: the id is no longer known.
    assert_eq!(b.send_data(Data::Fin, id), Err(SessionIdNotFoundError));
    assert_eq!(
        drain(&mut b),
        vec![
            ToSwarmEvent::NotifySendData { data: header, inbound_session_id: id },
            ToSwarmEvent::NotifySendData { data: Data::Fin, inbound_session_id: id },
        ],
    );
}

#[test]
fn send_data_on_unknown_session_is_an_error() {
    let mut b = Behaviour::new(10_000);
    let r = b.send_data(Data::Fin, InboundSessionId { value: 99 });
    assert_eq!(r, Err(SessionIdNotFoundError));
    assert_eq!(drain(&mut b), vec![]);
}

#[test]
fn poll_hands_out_events_oldest_first_then_none() {
    let mut b = Behaviour::new(10_000);
    let _ = b.send_query(query(0), PeerId(1));
    let first = b.poll();
    assert_eq!(first, Some(ToSwarmEvent::Dial { peer_id: PeerId(1) }));
    assert_eq!(b.poll(), None);
}
