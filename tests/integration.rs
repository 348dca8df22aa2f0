use harmony_agent::config::{Config, NetworkConfig, PeerConfig};
use harmony_agent::monitoring::{ConnectionState, Monitor};

#[test]
fn test_config_integration() {
    let mut config = Config::default();
    let network = NetworkConfig {
        enable_wireguard: true,
        interface: "wg0".to_string(),
        mtu: 1420,
        private_key_path: "/tmp/test.key".to_string(),
        dns: vec![],
        peers: vec![],
        http: None,
    };
    config.add_network("test-network".to_string(), network);
    assert_eq!(config.networks.len(), 1);
    assert!(config.get_network("test-network").is_some());
}

#[test]
fn test_monitoring_integration() {
    let mut monitor = Monitor::new();
    monitor.register_network("test".to_string());
    monitor.update_state("test", ConnectionState::Connected, 0);
    monitor.update_traffic("test", 1000, 2000);
    monitor.update_peers("test", 3, 2, 2);
    let stats = monitor.get_stats("test").unwrap();
    assert_eq!(stats.state, ConnectionState::Connected);
    assert_eq!(stats.tx_bytes, 1000);
    assert_eq!(stats.rx_bytes, 2000);
    assert_eq!(stats.total_peers, 3);
    assert_eq!(stats.active_peers, 2);
    let health = monitor.health_check();
    assert!(health.is_healthy());
}

#[test]
fn test_peer_configuration() {
    let peer = PeerConfig {
        name: "test-peer".to_string(),
        public_key: "test-key".to_string(),
        endpoint: "192.168.1.1:51820".to_string(),
        allowed_ips: vec!["10.0.0.0/24".to_string()],
        persistent_keepalive_secs: 25,
    };
    assert_eq!(peer.name, "test-peer");
    assert!(!peer.allowed_ips.is_empty());
}

#[test]
fn test_network_configuration_with_peers() {
    let peer1 = PeerConfig {
        name: "peer1".to_string(),
        public_key: "key1".to_string(),
        endpoint: "192.168.1.1:51820".to_string(),
        allowed_ips: vec!["10.0.1.0/24".to_string()],
        persistent_keepalive_secs: 25,
    };
    let peer2 = PeerConfig {
        name: "peer2".to_string(),
        public_key: "key2".to_string(),
        endpoint: "192.168.1.2:51820".to_string(),
        allowed_ips: vec!["10.0.2.0/24".to_string()],
        persistent_keepalive_secs: 25,
    };
    let network = NetworkConfig {
        enable_wireguard: true,
        interface: "wg1".to_string(),
        mtu: 1420,
        private_key_path: "/tmp/test.key".to_string(),
        dns: vec![],
        peers: vec![peer1, peer2],
        http: None,
    };
    assert_eq!(network.peers.len(), 2);
    assert_eq!(network.peers[0].name, "peer1");
    assert_eq!(network.peers[1].name, "peer2");
}

#[test]
fn test_monitoring_handshake_tracking() {
    let mut monitor = Monitor::new();
    monitor.register_network("test".to_string());
    for _ in 0..10 {
        monitor.record_handshake("test", true);
    }
    for _ in 0..2 {
        monitor.record_handshake("test", false);
    }
    let stats = monitor.get_stats("test").unwrap();
    assert_eq!(stats.handshake_successes, 10);
    assert_eq!(stats.handshake_failures, 2);
    let total = stats.handshake_successes + stats.handshake_failures;
    let rate = stats.handshake_successes as f64 / total as f64 * 100.0;
    assert!((rate - 83.33).abs() < 0.1);
}

#[test]
fn test_monitoring_state_transitions() {
    let mut monitor = Monitor::new();
    monitor.register_network("test".to_string());
    monitor.update_state("test", ConnectionState::Connecting, 1);
    assert_eq!(monitor.get_stats("test").unwrap().state, ConnectionState::Connecting);
    monitor.update_state("test", ConnectionState::Connected, 2);
    assert_eq!(monitor.get_stats("test").unwrap().state, ConnectionState::Connected);
    assert_eq!(monitor.get_stats("test").unwrap().connected_at, Some(2));
    monitor.update_state("test", ConnectionState::Degraded, 3);
    assert_eq!(monitor.get_stats("test").unwrap().state, ConnectionState::Degraded);
}

#[test]
fn test_monitor() {
    let mut monitor = Monitor::new();
    monitor.register_network("test".to_string());
    monitor.update_state("test", ConnectionState::Connected, 0);
    let stats = monitor.get_stats("test").unwrap();
    assert_eq!(stats.state, ConnectionState::Connected);
    assert!(monitor.get_stats("other").is_none());
    assert_eq!(monitor.get_all_stats().len(), 1);
}

#[test]
fn configuration_validation() {
    let good_peer = PeerConfig {
        name: "p".to_string(),
        public_key: "abcdefghijklmnopqrstuvwxyzABCDEFGHIJKLMNOP==".to_string(),
        endpoint: "vpn.example.com:51820".to_string(),
        allowed_ips: vec!["10.0.0.0/24".to_string()],
        persistent_keepalive_secs: 25,
    };
    let mut network = NetworkConfig {
        enable_wireguard: true,
        interface: "wg0".to_string(),
        mtu: 1420,
        private_key_path: "/etc/key".to_string(),
        dns: vec!["10.0.0.53".to_string()],
        peers: vec![good_peer.clone()],
        http: None,
    };
    assert!(network.validate().is_ok());
    let mut config = Config::new();
    config.add_network("n".to_string(), network.clone());
    assert!(config.validate().is_ok());
    network.dns = vec!["resolver".to_string()];
    assert!(network.validate().is_err());
    let mut bad = good_peer;
    bad.persistent_keepalive_secs = 5;
    assert!(bad.validate().is_err());
    network.dns = vec![];
    network.peers = vec![bad];
    config.add_network("n".to_string(), network);
    assert_eq!(config.networks.len(), 1);
    assert!(config.validate().is_err());
}
