use harmony_agent::keys::PrivateKey;
use harmony_agent::peer::{format_bytes, Peer, PeerConfig};

#[test]
fn test_peer_config_new() {
    let public_key = PrivateKey::generate().public_key();
    let config = PeerConfig::new("test-peer".to_string(), public_key.clone());
    assert_eq!(config.name, "test-peer");
    assert_eq!(config.public_key, public_key);
    assert!(config.endpoint.is_none());
    assert!(config.allowed_ips.is_empty());
}

#[test]
fn test_peer_config_set_endpoint() {
    let public_key = PrivateKey::generate().public_key();
    let mut config = PeerConfig::new("test-peer".to_string(), public_key);
    config.set_endpoint("192.168.1.1:51820").unwrap();
    assert!(config.endpoint.is_some());
    assert_eq!(config.endpoint.unwrap().port, 51820);
}

#[test]
fn test_peer_config_set_keepalive() {
    let public_key = PrivateKey::generate().public_key();
    let mut config = PeerConfig::new("test-peer".to_string(), public_key);
    config.set_keepalive_secs(25);
    assert_eq!(config.keepalive_interval, Some(25));
    config.set_keepalive_secs(0);
    assert_eq!(config.keepalive_interval, None);
}

#[test]
fn test_peer_config_validate_allowed_ip() {
    assert!(PeerConfig::validate_allowed_ip("10.0.0.0/24").is_ok());
    assert!(PeerConfig::validate_allowed_ip("192.168.1.0/24").is_ok());
    assert!(PeerConfig::validate_allowed_ip("fe80::/64").is_ok());
    assert!(PeerConfig::validate_allowed_ip("0.0.0.0/0").is_ok());
    assert!(PeerConfig::validate_allowed_ip("10.0.0.0").is_err());
    assert!(PeerConfig::validate_allowed_ip("10.0.0.0/33").is_err());
    assert!(PeerConfig::validate_allowed_ip("invalid/24").is_err());
}

#[test]
fn test_peer_new() {
    let public_key = PrivateKey::generate().public_key();
    let mut config = PeerConfig::new("test-peer".to_string(), public_key);
    config.allowed_ips = vec!["10.0.0.0/24".to_string()];
    let peer = Peer::new(config).unwrap();
    assert!(!peer.active);
    assert_eq!(peer.stats.tx_bytes, 0);
    assert_eq!(peer.stats.rx_bytes, 0);
}

#[test]
fn test_peer_activation() {
    let public_key = PrivateKey::generate().public_key();
    let config = PeerConfig::new("test-peer".to_string(), public_key);
    let mut peer = Peer::new(config).unwrap();
    assert!(!peer.active);
    peer.activate();
    assert!(peer.active);
    peer.deactivate();
    assert!(!peer.active);
}

#[test]
fn test_peer_stats_update() {
    let public_key = PrivateKey::generate().public_key();
    let config = PeerConfig::new("test-peer".to_string(), public_key);
    let mut peer = Peer::new(config).unwrap();
    peer.update_stats(1024, 2048);
    assert_eq!(peer.stats.tx_bytes, 1024);
    assert_eq!(peer.stats.rx_bytes, 2048);
}

#[test]
fn test_peer_handshake_tracking() {
    let public_key = PrivateKey::generate().public_key();
    let config = PeerConfig::new("test-peer".to_string(), public_key);
    let mut peer = Peer::new(config).unwrap();
    let now = 1_000;
    peer.record_handshake_attempt();
    peer.record_handshake_attempt();
    peer.record_successful_handshake(now);
    assert_eq!(peer.stats.handshake_attempts, 2);
    assert_eq!(peer.stats.successful_handshakes, 1);
    assert!(peer.stats.last_handshake.is_some());
    assert!(peer.stats.has_recent_handshake(now));
}

#[test]
fn test_format_bytes() {
    assert_eq!(format_bytes(512), "512 B");
    assert_eq!(format_bytes(1024), "1.00 KB");
    assert_eq!(format_bytes(1536), "1.50 KB");
    assert_eq!(format_bytes(1024 * 1024), "1.00 MB");
    assert_eq!(format_bytes(1024 * 1024 * 1024), "1.00 GB");
}

#[test]
fn format_bytes_edges() {
    assert_eq!(format_bytes(0), "0 B");
    assert_eq!(format_bytes(1023), "1023 B");
    assert_eq!(format_bytes(1025), "1.00 KB");
    assert_eq!(format_bytes(1024 * 1024 * 1024 * 1024), "1.00 TB");
    assert_eq!(format_bytes(5 * 1024 * 1024 * 1024 * 1024 * 1024), "5120.00 TB");
    assert_eq!(format_bytes(1024 * 1024 - 1), "1024.00 KB");
}

#[test]
fn handshake_recency_window() {
    let public_key = PrivateKey::from_bytes([3u8; 32]).public_key();
    let mut peer = Peer::new(PeerConfig::new("p".to_string(), public_key)).unwrap();
    peer.record_successful_handshake(100);
    assert!(peer.stats.has_recent_handshake(279));
    assert!(!peer.stats.has_recent_handshake(280));
    assert!(!peer.is_healthy(150));
    peer.activate();
    assert!(peer.is_healthy(150));
    assert_eq!(peer.status(400), "active (no recent handshake)");
    peer.update_stats(1536, 512);
    assert_eq!(peer.status(150), "active (tx: 1.50 KB, rx: 512 B, handshakes: 1/0)");
    peer.deactivate();
    assert_eq!(peer.status(150), "inactive");
}

#[test]
fn descriptor_validation_rules() {
    let key = PrivateKey::from_bytes([4u8; 32]).public_key();
    let mut c = PeerConfig::new("".to_string(), key);
    assert!(c.validate().is_err());
    c.name = "p".to_string();
    assert!(c.validate().is_ok());
    c.allowed_ips = vec!["10.0.0.0/24".to_string(), "fd00::/129".to_string()];
    assert!(c.validate().is_err());
    c.allowed_ips = vec!["10.0.0.0/24".to_string()];
    c.set_keepalive_secs(5);
    assert!(c.validate().is_err());
    c.set_keepalive_secs(25);
    assert!(c.validate().is_ok());
    assert!(c.set_endpoint("not an address").is_err());
    assert!(c.endpoint.is_none());
    assert!(c.set_endpoint("[fe80::1]:51820").is_ok());
}
