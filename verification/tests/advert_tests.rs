use eryzaa_core::advert::{
    create_client_advertisement, create_rental_advertisement, parse_advertisement,
    serialize_advertisement, NodeAdvertisement, NodeCapabilities, NodeStatus, NodeType,
    PAYLOAD_VERSION,
};
use eryzaa_core::discovery::is_probe_request;

fn sample_capabilities() -> NodeCapabilities {
    NodeCapabilities {
        cpu_cores: 8,
        memory_gb: 32,
        gpu_count: 1,
        gpu_memory_gb: 11,
        disk_space_gb: 1000,
        network_speed_mbps: 1000,
        supports_docker: true,
        supports_gpu: true,
        max_concurrent_jobs: 4,
    }
}

#[test]
fn test_node_advertisement_serialization() {
    let capabilities = sample_capabilities();

    let advertisement = create_rental_advertisement(
        "test-node-1".to_string(),
        "192.168.1.100".to_string(),
        Some("10.242.123.45".to_string()),
        capabilities,
        "363c67c55ad2489d".to_string(),
    );

    let serialized = serialize_advertisement(&advertisement);
    let deserialized: NodeAdvertisement = parse_advertisement(&serialized).unwrap();

    assert_eq!(advertisement.node_id, deserialized.node_id);
    assert_eq!(advertisement.node_type, deserialized.node_type);
    assert_eq!(advertisement.ip_address, deserialized.ip_address);
}

#[test]
fn round_trip_is_exact_field_for_field() {
    let advertisement = NodeAdvertisement {
        node_id: "node-αβγ-7".to_string(),
        node_type: NodeType::Coordinator,
        ip_address: "10.0.0.7".to_string(),
        zerotier_ip: None,
        ssh_port: 2222,
        api_port: 9000,
        capabilities: sample_capabilities(),
        status: NodeStatus::Maintenance,
        timestamp: u64::MAX,
        network_id: "net-ünïcodé".to_string(),
    };
    let bytes = serialize_advertisement(&advertisement);
    let back = parse_advertisement(&bytes).unwrap();
    assert_eq!(advertisement, back);
}

#[test]
fn encoding_opens_with_the_version_byte() {
    let advertisement = create_client_advertisement(
        "c1".to_string(),
        "10.0.0.1".to_string(),
        None,
        "n".to_string(),
    );
    let bytes = serialize_advertisement(&advertisement);
    assert_eq!(bytes[0], PAYLOAD_VERSION);
    // version, type tag (client = 1), status tag (available = 0)
    assert_eq!(bytes[1], 1);
    assert_eq!(bytes[2], 0);
}

#[test]
fn client_advertisement_has_no_capabilities() {
    let advertisement = create_client_advertisement(
        "c1".to_string(),
        "10.0.0.1".to_string(),
        Some("10.242.0.9".to_string()),
        "363c67c55ad2489d".to_string(),
    );
    assert_eq!(advertisement.node_type, NodeType::Client);
    assert_eq!(advertisement.status, NodeStatus::Available);
    assert_eq!(advertisement.ssh_port, 22);
    assert_eq!(advertisement.api_port, 8080);
    assert_eq!(advertisement.capabilities.cpu_cores, 0);
    assert_eq!(advertisement.capabilities.max_concurrent_jobs, 0);
    assert!(!advertisement.capabilities.supports_docker);
}

#[test]
fn malformed_datagrams_are_rejected() {
    // empty buffer
    assert!(parse_advertisement(&[]).is_none());
    // wrong version
    let advertisement = create_client_advertisement(
        "c1".to_string(),
        "10.0.0.1".to_string(),
        None,
        "n".to_string(),
    );
    let mut bytes = serialize_advertisement(&advertisement);
    bytes[0] = 99;
    assert!(parse_advertisement(&bytes).is_none());
    // unknown node-type tag
    let mut bytes = serialize_advertisement(&advertisement);
    bytes[1] = 7;
    assert!(parse_advertisement(&bytes).is_none());
    // trailing byte
    let mut bytes = serialize_advertisement(&advertisement);
    bytes.push(0);
    assert!(parse_advertisement(&bytes).is_none());
    // truncated buffer
    let bytes = serialize_advertisement(&advertisement);
    assert!(parse_advertisement(&bytes[..bytes.len() - 1]).is_none());
}

#[test]
fn invalid_utf8_in_a_string_field_is_rejected() {
    let advertisement = create_client_advertisement(
        "cc".to_string(),
        "10.0.0.1".to_string(),
        None,
        "n".to_string(),
    );
    let mut bytes = serialize_advertisement(&advertisement);
    // The node identifier's bytes start right after the 45-byte header and
    // its 8-byte length prefix. 0xFF is never valid UTF-8.
    bytes[53] = 0xFF;
    assert!(parse_advertisement(&bytes).is_none());
}

#[test]
fn probe_token_is_recognized() {
    assert!(is_probe_request(b"DISCOVER"));
    assert!(!is_probe_request(b"DISCOVERY"));
    assert!(!is_probe_request(b"discover"));
    assert!(!is_probe_request(b""));
}
