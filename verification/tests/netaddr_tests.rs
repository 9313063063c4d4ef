use eryzaa_core::netaddr::{candidate_from_token, is_valid_ipv4};

#[test]
fn dotted_quads_are_recognized() {
    assert!(is_valid_ipv4("192.168.1.100"));
    assert!(is_valid_ipv4("10.0.0.1"));
    assert!(is_valid_ipv4("0.0.0.0"));
    assert!(is_valid_ipv4("255.255.255.255"));
}

#[test]
fn near_misses_are_rejected() {
    assert!(!is_valid_ipv4("256.1.1.1"));
    assert!(!is_valid_ipv4("1.2.3"));
    assert!(!is_valid_ipv4("1.2.3.4.5"));
    assert!(!is_valid_ipv4("01.2.3.4"));
    assert!(!is_valid_ipv4("a.b.c.d"));
    assert!(!is_valid_ipv4("1..2.3"));
    assert!(!is_valid_ipv4(""));
    assert!(!is_valid_ipv4("1.2.3.4 "));
    assert!(!is_valid_ipv4(".1.2.3"));
    assert!(!is_valid_ipv4("1.2.3."));
}

#[test]
fn peer_listing_tokens_yield_their_address() {
    assert_eq!(
        candidate_from_token("10.242.123.45/9993"),
        Some("10.242.123.45".to_string())
    );
    assert_eq!(candidate_from_token("1.2.3.4"), Some("1.2.3.4".to_string()));
    assert_eq!(candidate_from_token("fe80::1/64"), None);
    assert_eq!(candidate_from_token("LEAF"), None);
    assert_eq!(candidate_from_token("363c67c55ad2489d"), None);
    assert_eq!(candidate_from_token("1.2.3.4/24/extra"), Some("1.2.3.4".to_string()));
}
