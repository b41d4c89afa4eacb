use std::str::FromStr;

use p2p_node::registry::{provider_peer_id, PeerInfo, ServiceRegistry};
use p2p_node::seeds::{bootstrap_seeds, seed_peer};
use p2p_node::service::service_key;
use p2p_node::target::{parse_target, service_target, TargetError};

const SEED_A: &str = "/dnsaddr/bootstrap.libp2p.io/p2p/QmNnooDu7bfjPFoTZYxMNLWUQJyrVwtbZg5gBMjTezGAJN";
const SEED_B: &str = "/dnsaddr/bootstrap.libp2p.io/p2p/QmQCU2EcMqAqQPR2i9bChDtGNJchTbq5TbXJJ16u19uLTa";

fn peer_bytes(s: &str) -> Vec<u8> {
    libp2p::PeerId::from_str(s).unwrap().to_bytes()
}

#[test]
fn service_key_prefixes_name() {
    assert_eq!(service_key("myapi:v1"), "service:myapi:v1");
    assert_eq!(service_key(""), "service:");
}

#[test]
fn service_key_is_deterministic() {
    assert_eq!(service_key("chat"), service_key("chat"));
    assert_ne!(service_key("chat"), service_key("chat2"));
}

#[test]
fn seed_peer_of_valid_seed() {
    assert_eq!(
        seed_peer(SEED_A),
        Some(peer_bytes("QmNnooDu7bfjPFoTZYxMNLWUQJyrVwtbZg5gBMjTezGAJN"))
    );
}

#[test]
fn seed_peer_of_malformed_or_peerless() {
    assert_eq!(seed_peer("not a multiaddr"), None);
    assert_eq!(seed_peer("/ip4/1.2.3.4/tcp/4001"), None);
    assert_eq!(seed_peer("/p2p/notbase58!"), None);
}

#[test]
fn malformed_seed_is_skipped() {
    let addrs = vec![
        SEED_A.to_string(),
        "garbage".to_string(),
        "/ip4/10.0.0.1/tcp/1".to_string(),
        SEED_B.to_string(),
    ];
    let seeds = bootstrap_seeds(&addrs);
    assert_eq!(seeds.len(), 2);
    assert_eq!(seeds[0].addr, SEED_A);
    assert_eq!(seeds[0].peer, peer_bytes("QmNnooDu7bfjPFoTZYxMNLWUQJyrVwtbZg5gBMjTezGAJN"));
    assert_eq!(seeds[1].addr, SEED_B);
    assert_eq!(seeds[1].peer, peer_bytes("QmQCU2EcMqAqQPR2i9bChDtGNJchTbq5TbXJJ16u19uLTa"));
}

#[test]
fn no_seeds() {
    assert!(bootstrap_seeds(&Vec::new()).is_empty());
}

#[test]
fn parse_target_debug_form() {
    let hex = "0123456789abcdef0123456789ABCDEF01234567";
    let r = parse_target(&format!("Id({})", hex)).unwrap();
    assert_eq!(r, hex::decode(hex).unwrap());
    assert_eq!(r.len(), 20);
    assert_eq!(r[0], 0x01);
    assert_eq!(r[19], 0x67);
}

#[test]
fn parse_target_bare_hex() {
    let hex = "ffffffffffffffffffffffffffffffffffffffff";
    assert_eq!(parse_target(hex), Ok(vec![0xff; 20]));
}

#[test]
fn parse_target_strips_repeated_wrappers() {
    let hex = "00000000000000000000000000000000000000aa";
    let r = parse_target(&format!("Id(Id({}))", hex)).unwrap();
    assert_eq!(r[19], 0xaa);
}

#[test]
fn parse_target_errors() {
    assert_eq!(parse_target("Id(zz)"), Err(TargetError::InvalidHex));
    assert_eq!(parse_target("Id(abc)"), Err(TargetError::InvalidHex));
    assert_eq!(parse_target("Id(abcd)"), Err(TargetError::WrongLength));
    assert_eq!(parse_target(""), Err(TargetError::WrongLength));
}

#[test]
fn service_target_is_immutable_hash() {
    let t = service_target("myapi:v1");
    assert_eq!(t.len(), 20);
    assert_eq!(t, mainline::common::hash_immutable(b"myapi:v1").to_vec());
    assert_ne!(t, service_target("myapi:v2"));
}

#[test]
fn provider_id_is_prefixed() {
    assert_eq!(provider_peer_id("abc"), "py-ws-abc");
}

#[test]
fn registry_insert_replace_and_list() {
    let mut reg = ServiceRegistry::new();
    reg.insert("a".to_string(), PeerInfo::new("p1".to_string(), "ws://a".to_string(), 1));
    reg.insert("b".to_string(), PeerInfo::new("p2".to_string(), "ws://b".to_string(), 2));
    reg.insert("a".to_string(), PeerInfo::new("p3".to_string(), "ws://a2".to_string(), 3));
    assert_eq!(
        reg.list_services(),
        vec![
            ("a".to_string(), "ws://a2".to_string()),
            ("b".to_string(), "ws://b".to_string())
        ]
    );
}

#[test]
fn registry_register_makes_provider_id() {
    let mut reg = ServiceRegistry::new();
    let info = reg.register("svc".to_string(), "ws://host:9000".to_string(), 9000);
    assert!(info.peer_id.starts_with("py-ws-"));
    assert_eq!(info.peer_id.len(), "py-ws-".len() + 36);
    assert_eq!(info.ws_url, "ws://host:9000");
    assert_eq!(info.port, 9000);
    assert_eq!(reg.list_services(), vec![("svc".to_string(), "ws://host:9000".to_string())]);
}
