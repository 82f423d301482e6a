use papyrus_network::discovery::{
    Discovery, DiscoveryAction, DiscoveryConfig, KademliaEvent, Multiaddr, Protocol,
};
use papyrus_network::PeerId;

fn addr(code: u64) -> Multiaddr {
    Multiaddr::new(vec![Protocol::Other(code), Protocol::Other(code + 1)])
}

fn tagged(code: u64, peer: PeerId) -> Multiaddr {
    Multiaddr::new(vec![Protocol::Other(code), Protocol::Other(code + 1), Protocol::P2p(peer)])
}

fn fresh(config: DiscoveryConfig) -> Discovery {
    let (d, _actions) = Discovery::new(config, PeerId(0), addr(1000), vec![]);
    d
}

#[test]
fn config_default_is_one_query_and_no_limit() {
    let config = DiscoveryConfig::default();
    assert_eq!(config.n_active_queries, 1);
    assert!(config.found_peers_limit.is_none());
}

#[test]
fn new_seeds_known_peers_then_schedules_queries() {
    let config = DiscoveryConfig { n_active_queries: 2, found_peers_limit: None };
    let known = vec![(PeerId(1), addr(10)), (PeerId(2), addr(20))];
    let (d, actions) = Discovery::new(config, PeerId(0), addr(1000), known);
    assert_eq!(
        actions,
        vec![
            DiscoveryAction::AddAddress { peer_id: PeerId(1), address: addr(10) },
            DiscoveryAction::AddAddress { peer_id: PeerId(2), address: addr(20) },
            DiscoveryAction::StartClosestPeersQuery,
            DiscoveryAction::StartClosestPeersQuery,
        ],
    );
    assert_eq!(*d.peer_id(), PeerId(0));
    assert_eq!(*d.address(), addr(1000));
}

#[test]
fn found_peer_is_emitted_once_with_tag_stripped() {
    let mut d = fresh(DiscoveryConfig::default());
    // The trailing peer-id tag is stripped before emission.
    let r = d.handle_found_peer(PeerId(5), tagged(30, PeerId(5)));
    assert_eq!(r, Some((PeerId(5), addr(30))));
    let (_, emitted) = r.unwrap();
    assert_eq!(*emitted.components(), vec![Protocol::Other(30), Protocol::Other(31)]);
    // The same peer again: deduplicated, whatever address it came with.
    assert_eq!(d.handle_found_peer(PeerId(5), addr(40)), None);
}

#[test]
fn address_without_tag_is_emitted_unchanged() {
    let mut d = fresh(DiscoveryConfig::default());
    assert_eq!(d.handle_found_peer(PeerId(6), addr(50)), Some((PeerId(6), addr(50))));
}

#[test]
fn empty_address_is_emitted_unchanged() {
    let mut d = fresh(DiscoveryConfig::default());
    let empty = Multiaddr::new(vec![]);
    assert_eq!(d.handle_found_peer(PeerId(7), empty.clone()), Some((PeerId(7), empty)));
}

#[test]
fn peer_tag_alone_strips_to_empty() {
    let mut d = fresh(DiscoveryConfig::default());
    let only_tag = Multiaddr::new(vec![Protocol::P2p(PeerId(8))]);
    assert_eq!(
        d.handle_found_peer(PeerId(8), only_tag),
        Some((PeerId(8), Multiaddr::new(vec![]))),
    );
}

#[test]
fn routing_events_deduplicate_across_kinds() {
    // The overlay reports the same peer through two different events: one
    // emission.
    let mut d = fresh(DiscoveryConfig::default());
    let r = d.handle_kademlia_event(KademliaEvent::RoutingUpdated {
        peer: PeerId(3),
        addresses: vec![tagged(60, PeerId(3)), addr(61)],
    });
    assert_eq!(r, Some((PeerId(3), addr(60))));
    let r = d.handle_kademlia_event(KademliaEvent::RoutablePeer {
        peer: PeerId(3),
        address: addr(62),
    });
    assert_eq!(r, None);
    let r = d.handle_kademlia_event(KademliaEvent::PendingRoutablePeer {
        peer: PeerId(3),
        address: addr(63),
    });
    assert_eq!(r, None);
}

#[test]
fn closest_peers_results_surface_nothing() {
    let mut d = fresh(DiscoveryConfig::default());
    let r = d.handle_kademlia_event(KademliaEvent::ClosestPeersResult {
        peers: vec![PeerId(1), PeerId(2)],
    });
    assert_eq!(r, None);
    // The peers named in the result were not marked found.
    assert_eq!(d.handle_found_peer(PeerId(1), addr(70)), Some((PeerId(1), addr(70))));
}

#[test]
fn found_peers_limit_ends_the_stream() {
    let mut d = fresh(DiscoveryConfig { n_active_queries: 1, found_peers_limit: Some(2) });
    assert!(!d.at_found_peers_limit());
    assert!(d.handle_found_peer(PeerId(1), addr(10)).is_some());
    assert!(!d.at_found_peers_limit());
    assert!(d.handle_found_peer(PeerId(2), addr(20)).is_some());
    // Two peers found: the cap is reached and the stream ends here.
    assert!(d.at_found_peers_limit());
    // A third distinct peer would still deduplicate correctly, but the
    // stream owner stops polling once the limit is reached.
    assert!(d.handle_found_peer(PeerId(3), addr(30)).is_some());
    assert!(d.at_found_peers_limit());
}

#[test]
fn identify_reports_become_add_address_actions_in_order() {
    let d = fresh(DiscoveryConfig::default());
    let actions = d.handle_identify(PeerId(4), vec![addr(80), addr(81)]);
    assert_eq!(
        actions,
        vec![
            DiscoveryAction::AddAddress { peer_id: PeerId(4), address: addr(80) },
            DiscoveryAction::AddAddress { peer_id: PeerId(4), address: addr(81) },
        ],
    );
    assert_eq!(d.handle_identify(PeerId(4), vec![]), vec![]);
}

#[test]
fn queries_to_start_tops_up_to_the_configured_count() {
    let d = fresh(DiscoveryConfig { n_active_queries: 3, found_peers_limit: None });
    assert_eq!(d.queries_to_start(0), 3);
    assert_eq!(d.queries_to_start(2), 1);
    assert_eq!(d.queries_to_start(3), 0);
    assert_eq!(d.queries_to_start(5), 0);
}

#[test]
fn distinct_peers_each_emitted_exactly_once() {
    let mut d = fresh(DiscoveryConfig::default());
    let mut emitted = Vec::new();
    let reports =
        vec![PeerId(1), PeerId(2), PeerId(1), PeerId(3), PeerId(2), PeerId(3), PeerId(4)];
    for (i, peer) in reports.into_iter().enumerate() {
        if let Some((p, _)) = d.handle_found_peer(peer, addr(i as u64 * 10)) {
            emitted.push(p);
        }
    }
    assert_eq!(emitted, vec![PeerId(1), PeerId(2), PeerId(3), PeerId(4)]);
}
