use apraxus_node::blockchain::Blockchain;
use apraxus_node::network::{Network, PeerRequest, SyncPlan};

#[test]
fn network_keeps_address_and_file() {
    let network = Network::new("127.0.0.1:7000", "chain.json");
    assert_eq!(network.address, "127.0.0.1:7000");
    assert_eq!(network.blockchain_file, "chain.json");
}

#[test]
fn peer_requests_are_classified() {
    assert!(matches!(Network::classify_request("GET_BLOCKCHAIN\n"), PeerRequest::GetBlockchain));
    assert!(matches!(Network::classify_request("  GET_BLOCKCHAIN  "), PeerRequest::GetBlockchain));
    match Network::classify_request("TRANSACTION\n{\"amount\":1}") {
        PeerRequest::Transaction(json) => assert_eq!(json, "{\"amount\":1}"),
        _ => panic!("expected a transaction"),
    }
    assert!(matches!(Network::classify_request("APRAXUS_P2P_TEST\n"), PeerRequest::P2pTest));
    assert!(matches!(Network::classify_request("TRANSACTION"), PeerRequest::Unknown));
    assert!(matches!(Network::classify_request("hello"), PeerRequest::Unknown));
}

#[test]
fn peer_chain_sync_plan() {
    let valid = Blockchain::new().unwrap();
    assert!(matches!(Network::plan_sync(&valid, false), SyncPlan::AdoptPeer));
    assert!(matches!(Network::plan_sync(&valid, true), SyncPlan::CompareWithLocal));
    let mut invalid = Blockchain::new().unwrap();
    invalid.total_supply = 1;
    assert!(matches!(Network::plan_sync(&invalid, false), SyncPlan::RejectPeer));
}

#[test]
fn unicode_whitespace_is_trimmed() {
    assert!(matches!(
        Network::classify_request("\u{3000}GET_BLOCKCHAIN\u{a0}\u{2028}"),
        PeerRequest::GetBlockchain
    ));
    assert!(matches!(Network::classify_request("\u{200b}GET_BLOCKCHAIN"), PeerRequest::Unknown));
}
