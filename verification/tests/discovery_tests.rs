use dragit_wasm::discovery::{
    dial_target, rendezvous_address, webrtc_listen_address, webrtc_peer_address, Discovery,
    DiscoveryAction, DiscoveryEvent, KnownPeers,
};

#[test]
fn addresses() {
    assert_eq!(rendezvous_address(), "/ip4/127.0.0.1/tcp/45555/ws");
    assert_eq!(webrtc_listen_address(), "/ip4/127.0.0.1/tcp/8080/ws/p2p-webrtc-star");
    assert_eq!(
        webrtc_peer_address("QmX"),
        "/ip4/127.0.0.1/tcp/8080/ws/p2p-webrtc-star/p2p/QmX"
    );
}

#[test]
fn dial_only_unconnected_peers() {
    assert_eq!(dial_target("QmX", true), None);
    assert_eq!(
        dial_target("QmX", false),
        Some("/ip4/127.0.0.1/tcp/8080/ws/p2p-webrtc-star/p2p/QmX".to_string())
    );
}

#[test]
fn connection_registers_with_server() {
    let mut d = Discovery::new("QmLocal".to_string());
    let mut k = KnownPeers::new();
    let a = d.handle(&mut k, DiscoveryEvent::ConnectionEstablished { peer_id: "QmServer".to_string() });
    match a {
        DiscoveryAction::Register { namespace, rendezvous_node } => {
            assert_eq!(namespace, "discovery");
            assert_eq!(rendezvous_node, "QmServer");
        }
        _ => panic!("expected a registration"),
    }
}

#[test]
fn closed_connection_redials() {
    let mut d = Discovery::new("QmLocal".to_string());
    let mut k = KnownPeers::new();
    assert!(matches!(d.handle(&mut k, DiscoveryEvent::ConnectionClosed), DiscoveryAction::Redial));
    assert!(matches!(d.handle(&mut k, DiscoveryEvent::NewListenAddr), DiscoveryAction::Nothing));
    assert!(matches!(d.handle(&mut k, DiscoveryEvent::Other), DiscoveryAction::Nothing));
}

#[test]
fn registration_starts_discovery_without_cookie() {
    let mut d = Discovery::new("QmLocal".to_string());
    let mut k = KnownPeers::new();
    let a = d.handle(
        &mut k,
        DiscoveryEvent::Registered {
            namespace: "discovery".to_string(),
            rendezvous_node: "QmServer".to_string(),
        },
    );
    match a {
        DiscoveryAction::Discover { namespace, cookie, rendezvous_node } => {
            assert_eq!(namespace, "discovery");
            assert_eq!(cookie, None);
            assert_eq!(rendezvous_node, "QmServer");
        }
        _ => panic!("expected a discovery"),
    }
}

#[test]
fn ping_before_discovery_does_nothing() {
    let mut d = Discovery::new("QmLocal".to_string());
    let mut k = KnownPeers::new();
    let a = d.handle(&mut k, DiscoveryEvent::Ping { peer: "QmServer".to_string() });
    assert!(matches!(a, DiscoveryAction::Nothing));
}

#[test]
fn discovery_learns_other_peers_and_cookie() {
    let mut d = Discovery::new("QmLocal".to_string());
    let mut k = KnownPeers::new();
    let a = d.handle(
        &mut k,
        DiscoveryEvent::Discovered {
            registrations: vec![
                "QmA".to_string(),
                "QmLocal".to_string(),
                "QmB".to_string(),
                "QmA".to_string(),
            ],
            cookie: vec![1, 2, 3],
        },
    );
    assert!(matches!(a, DiscoveryAction::Nothing));
    assert_eq!(k.listing(), "QmA QmB");
    assert!(k.contains(&"QmB".to_string()));
    assert!(!k.contains(&"QmLocal".to_string()));
    assert_eq!(d.cookie, Some(vec![1, 2, 3]));

    let a = d.handle(&mut k, DiscoveryEvent::Ping { peer: "QmServer".to_string() });
    match a {
        DiscoveryAction::Discover { namespace, cookie, rendezvous_node } => {
            assert_eq!(namespace, "discovery");
            assert_eq!(cookie, Some(vec![1, 2, 3]));
            assert_eq!(rendezvous_node, "QmServer");
        }
        _ => panic!("expected a discovery"),
    }

    d.handle(
        &mut k,
        DiscoveryEvent::Discovered { registrations: vec!["QmC".to_string()], cookie: vec![9] },
    );
    assert_eq!(k.listing(), "QmA QmB QmC");
    assert_eq!(d.cookie, Some(vec![9]));
}

#[test]
fn known_peers_listing_and_calls() {
    let mut k = KnownPeers::new();
    assert_eq!(k.listing(), "");
    k.insert("QmA".to_string());
    assert_eq!(k.listing(), "QmA");
    k.insert("QmA".to_string());
    assert_eq!(k.listing(), "QmA");
    k.insert("QmB".to_string());
    assert_eq!(k.listing(), "QmA QmB");
    assert_eq!(k.call_peer(&"QmB".to_string()), Ok("sent".to_string()));
    assert_eq!(k.call_peer(&"QmZ".to_string()), Err("".to_string()));
}

#[test]
fn only_discoveries_change_cookie_and_peers() {
    let mut d = Discovery::new("QmLocal".to_string());
    let mut k = KnownPeers::new();
    d.handle(
        &mut k,
        DiscoveryEvent::Discovered { registrations: vec!["QmA".to_string()], cookie: vec![4, 2] },
    );
    d.handle(&mut k, DiscoveryEvent::Ping { peer: "QmServer".to_string() });
    d.handle(&mut k, DiscoveryEvent::ConnectionClosed);
    d.handle(&mut k, DiscoveryEvent::ConnectionEstablished { peer_id: "QmB".to_string() });
    d.handle(
        &mut k,
        DiscoveryEvent::Registered {
            namespace: "discovery".to_string(),
            rendezvous_node: "QmB".to_string(),
        },
    );
    assert_eq!(d.cookie, Some(vec![4, 2]));
    assert_eq!(d.local_peer, "QmLocal");
    assert_eq!(k.listing(), "QmA");
}
