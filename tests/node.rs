use p2p_node::node::{
    Action, Event, Node, Role, IDLE_CONNECTION_TIMEOUT_SECS, LOOKUP_INTERVAL_SECS,
    QUERY_TIMEOUT_SECS,
};

#[test]
fn first_listen_address_starts_bootstrap_once() {
    let mut n = Node::new(Role::Server);
    assert!(matches!(n.handle_event(Event::NewListenAddr), Action::AddSeeds { bootstrap: true }));
    assert!(matches!(n.handle_event(Event::NewListenAddr), Action::AddSeeds { bootstrap: false }));
}

#[test]
fn server_registers_only_after_bootstrap() {
    let mut n = Node::new(Role::Server);
    n.handle_event(Event::NewListenAddr);
    assert!(matches!(n.handle_event(Event::BootstrapFailed), Action::NoOp));
    assert!(!n.is_bootstrapped());
    assert!(matches!(n.handle_event(Event::BootstrapOk), Action::StartProviding));
    assert!(n.is_bootstrapped());
}

#[test]
fn server_registers_at_most_once() {
    let mut n = Node::new(Role::Server);
    assert!(matches!(n.handle_event(Event::BootstrapOk), Action::StartProviding));
    assert!(matches!(n.handle_event(Event::BootstrapOk), Action::NoOp));
    assert!(matches!(n.handle_event(Event::ProvidingResult { ok: true }), Action::NoOp));
    assert!(n.is_registered());
    for _ in 0..5 {
        assert!(matches!(n.handle_event(Event::BootstrapOk), Action::NoOp));
    }
}

#[test]
fn failed_registration_is_retried_on_next_bootstrap() {
    let mut n = Node::new(Role::Server);
    assert!(matches!(n.handle_event(Event::BootstrapOk), Action::StartProviding));
    n.handle_event(Event::ProvidingResult { ok: false });
    assert!(!n.is_registered());
    assert!(matches!(n.handle_event(Event::BootstrapOk), Action::StartProviding));
}

#[test]
fn client_never_registers() {
    let mut n = Node::new(Role::Client);
    assert!(matches!(n.handle_event(Event::BootstrapOk), Action::NoOp));
    assert!(!n.is_registered());
}

#[test]
fn server_never_looks_up() {
    let mut n = Node::new(Role::Server);
    n.handle_event(Event::BootstrapOk);
    assert!(matches!(n.handle_event(Event::LookupTick), Action::NoOp));
}

#[test]
fn client_looks_up_only_when_bootstrapped() {
    let mut n = Node::new(Role::Client);
    assert!(matches!(n.handle_event(Event::LookupTick), Action::NoOp));
    n.handle_event(Event::BootstrapOk);
    assert!(matches!(n.handle_event(Event::LookupTick), Action::GetProviders));
    assert!(matches!(n.handle_event(Event::NoProviders), Action::NoOp));
    assert!(matches!(n.handle_event(Event::LookupTick), Action::GetProviders));
}

#[test]
fn client_dials_first_provider_then_stops_looking() {
    let mut n = Node::new(Role::Client);
    n.handle_event(Event::BootstrapOk);
    assert!(matches!(
        n.handle_event(Event::ProvidersFound { providers: vec![] }),
        Action::NoOp
    ));
    assert!(n.discovered_peer().is_none());
    match n.handle_event(Event::ProvidersFound { providers: vec![vec![1, 2], vec![3]] }) {
        Action::Dial { peer } => assert_eq!(peer, vec![1, 2]),
        _ => panic!("expected a dial"),
    }
    assert_eq!(n.discovered_peer(), Some(vec![1, 2]));
    for _ in 0..3 {
        assert!(matches!(n.handle_event(Event::LookupTick), Action::NoOp));
    }
    assert!(matches!(
        n.handle_event(Event::ProvidersFound { providers: vec![vec![9]] }),
        Action::NoOp
    ));
    assert_eq!(n.discovered_peer(), Some(vec![1, 2]));
}

#[test]
fn identify_addresses_go_to_routing_table() {
    let mut n = Node::new(Role::Client);
    let addrs = vec!["/ip4/1.2.3.4/tcp/4001".to_string()];
    match n.handle_event(Event::PeerIdentified { peer: vec![7], addrs: addrs.clone() }) {
        Action::AddAddresses { peer, addrs: got } => {
            assert_eq!(peer, vec![7]);
            assert_eq!(got, addrs);
        }
        _ => panic!("expected addresses for the routing table"),
    }
}

#[test]
fn connection_is_reported() {
    let mut n = Node::new(Role::Server);
    match n.handle_event(Event::ConnectionEstablished { peer: vec![5, 6] }) {
        Action::Connected { peer } => assert_eq!(peer, vec![5, 6]),
        _ => panic!("expected a connected peer"),
    }
}

#[test]
fn timing_constants() {
    assert_eq!(QUERY_TIMEOUT_SECS, 300);
    assert_eq!(LOOKUP_INTERVAL_SECS, 10);
    assert_eq!(IDLE_CONNECTION_TIMEOUT_SECS, 60);
}
