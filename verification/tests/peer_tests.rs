use quorum_trust::network::messages::PeerInfo;
use quorum_trust::network::peer_discovery::{decimal_text, peer_key, PeerTable};

fn peer(address: &str, port: u16, name: Option<&str>) -> PeerInfo {
    PeerInfo {
        address: address.to_string(),
        port,
        name: name.map(|n| n.to_string()),
        last_seen: chrono::Utc::now().timestamp_millis(),
    }
}

#[test]
fn test_peer_table_upsert() {
    let mut table = PeerTable::default();
    table.upsert(peer("192.168.1.1", 9400, Some("node-1")));
    assert_eq!(table.len(), 1);
    table.upsert(peer("192.168.1.1", 9400, Some("node-1-updated")));
    assert_eq!(table.len(), 1);
}

#[test]
fn test_peer_table_exclude_self() {
    let mut table = PeerTable::default();
    table.upsert(peer("192.168.1.1", 9400, None));
    table.upsert(peer("192.168.1.2", 9400, None));
    let others = table.get_others("192.168.1.1", 9400);
    assert_eq!(others.len(), 1);
    assert_eq!(others[0].address, "192.168.1.2");
}

#[test]
fn keys_are_address_colon_port() {
    assert_eq!(peer_key("10.0.0.1", 9400), "10.0.0.1:9400");
    assert_eq!(peer_key("h", 0), "h:0");
    assert_eq!(decimal_text(65535), "65535");
    assert_eq!(decimal_text(7), "7");
    assert_eq!(decimal_text(10), "10");
}

#[test]
fn merge_skips_self_and_updates_known() {
    let mut table = PeerTable::default();
    table.upsert(peer("a", 1, Some("old")));
    let known = vec![peer("me", 5, None), peer("a", 1, Some("new")), peer("b", 2, None), peer("a", 2, None)];
    table.merge_from_exchange(&known, "me", 5);
    assert_eq!(table.len(), 3);
    let all = table.get_all();
    assert_eq!(all.len(), 3);
    assert!(all.iter().all(|p| p.address != "me"));
    assert_eq!(all[0].name.as_deref(), Some("new"));
    let others = table.get_others("a", 2);
    assert_eq!(others.len(), 2);
}
