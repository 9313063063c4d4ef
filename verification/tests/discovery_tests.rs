use eryzaa_core::advert::{
    serialize_advertisement, NodeAdvertisement, NodeCapabilities, NodeStatus, NodeType,
};
use eryzaa_core::discovery::{DiscoveryService, PeerTable};

fn record(node_id: &str, node_type: NodeType, status: NodeStatus, timestamp: u64) -> NodeAdvertisement {
    NodeAdvertisement {
        node_id: node_id.to_string(),
        node_type,
        ip_address: "10.0.0.2".to_string(),
        zerotier_ip: None,
        ssh_port: 22,
        api_port: 8080,
        capabilities: NodeCapabilities {
            cpu_cores: 4,
            memory_gb: 16,
            gpu_count: 0,
            gpu_memory_gb: 0,
            disk_space_gb: 100,
            network_speed_mbps: 1000,
            supports_docker: true,
            supports_gpu: false,
            max_concurrent_jobs: 2,
        },
        status,
        timestamp,
        network_id: "363c67c55ad2489d".to_string(),
    }
}

#[test]
fn peer_table_never_holds_the_local_identifier() {
    let mut table = PeerTable::new("me".to_string());
    // A record claiming to be the local node is discarded, fresh or not.
    let own = record("me", NodeType::Rental, NodeStatus::Available, 1000);
    assert!(!table.record_advertisement(own, 1000));
    assert_eq!(table.len(), 0);
    assert!(!table.contains_id(&"me".to_string()));
    // Another node's record is taken.
    let other = record("peer-1", NodeType::Rental, NodeStatus::Available, 1000);
    assert!(table.record_advertisement(other, 1000));
    assert_eq!(table.len(), 1);
    assert!(table.contains_id(&"peer-1".to_string()));
    assert!(!table.contains_id(&"me".to_string()));
}

#[test]
fn listener_discards_stale_and_future_stamps_are_taken() {
    let mut table = PeerTable::new("me".to_string());
    // Exactly the staleness window old: discarded.
    let stale = record("p1", NodeType::Rental, NodeStatus::Available, 880);
    assert!(!table.record_advertisement(stale, 1000));
    // One second inside the window: taken.
    let fresh = record("p2", NodeType::Rental, NodeStatus::Available, 881);
    assert!(table.record_advertisement(fresh, 1000));
    // A timestamp ahead of the clock is not stale.
    let ahead = record("p3", NodeType::Rental, NodeStatus::Available, 2000);
    assert!(table.record_advertisement(ahead, 1000));
    assert_eq!(table.len(), 2);
}

#[test]
fn last_write_wins_per_identifier() {
    let mut table = PeerTable::new("me".to_string());
    assert!(table.record_advertisement(
        record("p1", NodeType::Rental, NodeStatus::Available, 1000),
        1000
    ));
    assert!(table.record_advertisement(
        record("p1", NodeType::Rental, NodeStatus::Busy, 1010),
        1010
    ));
    let nodes = table.snapshot();
    assert_eq!(nodes.len(), 1);
    assert_eq!(nodes[0].status, NodeStatus::Busy);
    assert_eq!(nodes[0].timestamp, 1010);
}

#[test]
fn janitor_removes_exactly_the_stale_entries() {
    let mut table = PeerTable::new("me".to_string());
    // Taken at time 900 with stamp 880...
    assert!(table.record_advertisement(
        record("old", NodeType::Rental, NodeStatus::Available, 880),
        900
    ));
    assert!(table.record_advertisement(
        record("new", NodeType::Rental, NodeStatus::Available, 1050),
        1060
    ));
    // ...and by 1100 that stamp has fallen out of the 120-second window.
    table.remove_stale(1100);
    let nodes = table.snapshot();
    assert_eq!(nodes.len(), 1);
    assert_eq!(nodes[0].node_id, "new");
}

#[test]
fn available_rentals_are_exactly_the_available_rental_subset() {
    let mut service = DiscoveryService::new(record(
        "me",
        NodeType::Client,
        NodeStatus::Available,
        1000,
    ));
    let now = 1000;
    for (id, node_type, status) in [
        ("r-avail", NodeType::Rental, NodeStatus::Available),
        ("r-busy", NodeType::Rental, NodeStatus::Busy),
        ("r-maint", NodeType::Rental, NodeStatus::Maintenance),
        ("c-avail", NodeType::Client, NodeStatus::Available),
        ("coord", NodeType::Coordinator, NodeStatus::Available),
    ] {
        let bytes = serialize_advertisement(&record(id, node_type, status, now));
        assert!(service.handle_datagram(&bytes, now));
    }
    let rentals = service.get_available_rentals();
    assert_eq!(rentals.len(), 1);
    assert_eq!(rentals[0].node_id, "r-avail");
    let all_rentals = service.get_nodes_by_type(NodeType::Rental);
    assert_eq!(all_rentals.len(), 3);
    let coordinators = service.get_nodes_by_type(NodeType::Coordinator);
    assert_eq!(coordinators.len(), 1);
    assert_eq!(service.get_discovered_nodes().len(), 5);
}

#[test]
fn service_drops_own_datagrams_and_garbage() {
    let local = record("me", NodeType::Rental, NodeStatus::Available, 1000);
    let mut service = DiscoveryService::new(local.clone());
    // Its own advertisement comes back from the multicast group: discarded.
    let own = serialize_advertisement(&local);
    assert!(!service.handle_datagram(&own, 1000));
    assert_eq!(service.get_discovered_nodes().len(), 0);
    // Garbage bytes: discarded.
    assert!(!service.handle_datagram(b"DISCOVER", 1000));
    assert!(!service.handle_datagram(&[1, 2, 3], 1000));
    assert_eq!(service.get_discovered_nodes().len(), 0);
}

#[test]
fn update_status_refreshes_the_local_record_only() {
    let mut service = DiscoveryService::new(record(
        "me",
        NodeType::Rental,
        NodeStatus::Available,
        1000,
    ));
    let peer = serialize_advertisement(&record("p1", NodeType::Rental, NodeStatus::Available, 1000));
    assert!(service.handle_datagram(&peer, 1000));

    service.update_status(NodeStatus::Busy, 1200);
    let payload = service.advertisement_payload(1300);
    let sent = eryzaa_core::advert::parse_advertisement(&payload).unwrap();
    assert_eq!(sent.status, NodeStatus::Busy);
    assert_eq!(sent.timestamp, 1300);
    assert_eq!(sent.node_id, "me");
    // The peer table was not touched.
    assert_eq!(service.get_discovered_nodes().len(), 1);

    let caps = NodeCapabilities {
        cpu_cores: 64,
        memory_gb: 256,
        gpu_count: 4,
        gpu_memory_gb: 80,
        disk_space_gb: 4000,
        network_speed_mbps: 10000,
        supports_docker: true,
        supports_gpu: true,
        max_concurrent_jobs: 8,
    };
    service.update_capabilities(caps, 1400);
    let payload = service.advertisement_payload(1400);
    let sent = eryzaa_core::advert::parse_advertisement(&payload).unwrap();
    assert_eq!(sent.capabilities, caps);
    assert_eq!(sent.status, NodeStatus::Busy);
}

#[test]
fn janitor_pass_on_the_service() {
    let mut service = DiscoveryService::new(record(
        "me",
        NodeType::Client,
        NodeStatus::Available,
        900,
    ));
    let peer = serialize_advertisement(&record("p1", NodeType::Rental, NodeStatus::Available, 880));
    assert!(service.handle_datagram(&peer, 900));
    assert_eq!(service.get_discovered_nodes().len(), 1);
    service.cleanup(1100);
    assert_eq!(service.get_discovered_nodes().len(), 0);
}
