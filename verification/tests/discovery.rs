//! Tests of the peer registry and the join protocol, including a three-node
//! convergence scenario in which every message, delayed ones included, is
//! eventually delivered.

use iroha_network::DiscoveryService;
use iroha_network::MemoryStream;
use iroha_network::Network;
use iroha_network::Outbound;
use iroha_network::Peer;
use iroha_network::RejectAll;
use iroha_network::Request;
use iroha_network::encode;

fn count_peers_route(peer: &mut Peer) -> Vec<u8> {
    peer.handle_discovery(&Request::new("count-peers".to_string(), vec![]))
        .expect("count-peers is a discovery route")
        .expect("count-peers cannot fail")
}

#[test]
fn count_peers_starts_at_zero() {
    let mut peer = Peer::new();
    assert_eq!(count_peers_route(&mut peer), vec![0u8])
}

#[test]
fn add_peer_is_idempotent() {
    let mut peer = Peer::new();
    for _ in 0..2 {
        let response = peer
            .handle_discovery(&Request::new("add-peer".to_string(), b"127.0.0.1:7878".to_vec()))
            .unwrap()
            .unwrap();
        assert_eq!(response, Vec::<u8>::new());
    }
    assert_eq!(count_peers_route(&mut peer), vec![1u8]);
    assert!(peer.contains_peer("127.0.0.1:7878"))
}

#[test]
fn add_peer_with_a_non_text_address_fails() {
    let mut peer = Peer::new();
    let outcome = peer
        .handle_discovery(&Request::new("add-peer".to_string(), vec![0xff, 0xfe]))
        .unwrap();
    assert!(outcome.is_err());
    assert_eq!(count_peers_route(&mut peer), vec![0u8])
}

#[test]
fn unknown_route_is_left_to_the_application_handler() {
    let mut peer = Peer::new();
    assert!(peer
        .handle_discovery(&Request::new("/commands".to_string(), vec![]))
        .is_none())
}

#[test]
fn join_queues_notifications_both_ways() {
    let mut peer = Peer::new();
    peer.add_peer("127.0.0.1:7880".to_string());
    let response = peer
        .handle_discovery(&Request::new("join".to_string(), b"127.0.0.1:7881".to_vec()))
        .unwrap()
        .unwrap();
    assert_eq!(response, Vec::<u8>::new());
    assert_eq!(count_peers_route(&mut peer), vec![2u8]);

    let queued = peer.take_outbound();
    assert_eq!(queued.len(), 2);
    assert_eq!(queued[0].to, "127.0.0.1:7880");
    assert_eq!(queued[0].request.url(), "add-peer");
    assert_eq!(queued[0].request.payload(), b"127.0.0.1:7881");
    assert!(!queued[0].delayed);
    assert_eq!(queued[1].to, "127.0.0.1:7881");
    assert_eq!(queued[1].request.url(), "add-peer");
    assert_eq!(queued[1].request.payload(), b"127.0.0.1:7880");
    assert!(queued[1].delayed);
    assert!(peer.take_outbound().is_empty())
}

#[test]
fn discovery_routes_answer_over_the_wire() {
    let mut service = DiscoveryService::new(Peer::new(), RejectAll);
    let mut stream =
        MemoryStream::new(encode(Request::new("add-peer".to_string(), b"127.0.0.1:7878".to_vec())));
    Network::handle_message(&mut stream, &mut service).unwrap();
    assert_eq!(stream.into_written(), Vec::<u8>::new());

    let mut stream = MemoryStream::new(encode(Request::new("count-peers".to_string(), vec![])));
    Network::handle_message(&mut stream, &mut service).unwrap();
    assert_eq!(stream.into_written(), vec![1u8])
}

fn node_mut<'a>(nodes: &'a mut Vec<(String, Peer)>, address: &str) -> &'a mut Peer {
    for (known, peer) in nodes.iter_mut() {
        if known == address {
            return peer;
        }
    }
    panic!("message sent to an unknown node")
}

/// Delivers every queued immediate message, setting delayed ones aside.
fn pump(nodes: &mut Vec<(String, Peer)>, wire: &mut Vec<Outbound>, held: &mut Vec<Outbound>) {
    while let Some(message) = wire.pop() {
        if message.delayed {
            held.push(message);
            continue;
        }
        let target = node_mut(nodes, &message.to);
        target
            .handle_discovery(&message.request)
            .expect("discovery route")
            .expect("discovery routes succeed on textual addresses");
        let mut produced = target.take_outbound();
        wire.append(&mut produced);
    }
}

#[test]
fn peer_to_peer() {
    let addr_a = "127.0.0.1:7879";
    let addr_b = "127.0.0.1:7880";
    let addr_c = "127.0.0.1:7881";
    let mut nodes: Vec<(String, Peer)> = vec![
        (addr_a.to_string(), Peer::new()),
        (addr_b.to_string(), Peer::new()),
        (addr_c.to_string(), Peer::new()),
    ];
    let mut wire: Vec<Outbound> = Vec::new();
    let mut held: Vec<Outbound> = Vec::new();

    // B joins the bootstrap node A, then C does; once the settling delay has
    // elapsed the held notifications are delivered too. Convergence relies on
    // every message arriving: the protocol itself is best-effort only.
    let join = node_mut(&mut nodes, addr_b).join_request(addr_b, addr_a.to_string());
    wire.push(join);
    pump(&mut nodes, &mut wire, &mut held);

    let join = node_mut(&mut nodes, addr_c).join_request(addr_c, addr_a.to_string());
    wire.push(join);
    pump(&mut nodes, &mut wire, &mut held);

    for mut message in held.drain(..) {
        message.delayed = false;
        wire.push(message);
    }
    pump(&mut nodes, &mut wire, &mut held);

    let mut counts: Vec<(String, u8)> = Vec::new();
    for (address, peer) in nodes.iter_mut() {
        let counted = peer
            .handle_discovery(&Request::new("count-peers".to_string(), vec![]))
            .unwrap()
            .unwrap();
        counts.push((address.clone(), counted[0]));
    }
    assert_eq!(
        counts,
        vec![
            (addr_a.to_string(), 2u8),
            (addr_b.to_string(), 2u8),
            (addr_c.to_string(), 2u8),
        ]
    );
}
