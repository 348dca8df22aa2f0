use harmony_agent::monitoring::{
    check_health, check_network_health, ConnectionState, HealthStatus, MetricType, NetworkStats,
};

#[test]
fn test_health_status_display() {
    assert_eq!(HealthStatus::Healthy.to_string(), "healthy");
    assert_eq!(HealthStatus::Degraded.to_string(), "degraded");
    assert_eq!(HealthStatus::Unhealthy.to_string(), "unhealthy");
}

#[test]
fn test_metric_type_display() {
    assert_eq!(MetricType::BytesTransmitted.to_string(), "harmony_agent_bytes_transmitted_total");
}

#[test]
fn test_connection_state_display() {
    assert_eq!(ConnectionState::Connected.to_string(), "connected");
    assert_eq!(ConnectionState::Disconnected.to_string(), "disconnected");
}

#[test]
fn test_network_stats() {
    let stats = NetworkStats::new("test".to_string());
    assert_eq!(stats.network, "test");
    assert_eq!(stats.state, ConnectionState::Disconnected);
    assert_eq!(stats.uptime(100), None);
}

#[test]
fn metric_kinds_and_help() {
    assert_eq!(MetricType::BytesReceived.metric_kind(), "counter");
    assert_eq!(MetricType::ActivePeers.metric_kind(), "gauge");
    assert_eq!(MetricType::PacketLoss.help_text(), "Packet loss rate percentage");
}

#[test]
fn uptime_counts_from_connection() {
    let mut stats = NetworkStats::new("n".to_string());
    stats.connected_at = Some(40);
    assert_eq!(stats.uptime(100), Some(60));
    assert_eq!(stats.uptime(10), Some(0));
}

#[test]
fn test_health_check_empty() {
    let health = check_health(&vec![]);
    assert_eq!(health.status, HealthStatus::Healthy);
    assert_eq!(health.details, "No networks registered");
}

#[test]
fn test_network_health_disconnected() {
    let mut stats = NetworkStats::new("test".to_string());
    stats.state = ConnectionState::Disconnected;
    let health = check_network_health(&stats);
    assert_eq!(health.status, HealthStatus::Unhealthy);
}

#[test]
fn test_network_health_connected() {
    let mut stats = NetworkStats::new("test".to_string());
    stats.state = ConnectionState::Connected;
    stats.total_peers = 2;
    stats.healthy_peers = 2;
    let health = check_network_health(&stats);
    assert_eq!(health.status, HealthStatus::Healthy);
    assert_eq!(health.details, "healthy");
}

#[test]
fn test_peer_health_calculation() {
    let mut stats = NetworkStats::new("test".to_string());
    stats.total_peers = 4;
    stats.healthy_peers = 2;
    let health = check_network_health(&stats);
    assert_eq!(health.peer_health_tenths, 500);
}

#[test]
fn health_thresholds_and_details() {
    let mut stats = NetworkStats::new("n".to_string());
    stats.state = ConnectionState::Connected;
    stats.total_peers = 3;
    stats.healthy_peers = 1;
    let h = check_network_health(&stats);
    assert_eq!(h.status, HealthStatus::Degraded);
    assert_eq!(h.details, "low peer health: 33.3%");
    stats.healthy_peers = 3;
    stats.handshake_successes = 9;
    stats.handshake_failures = 3;
    let h = check_network_health(&stats);
    assert_eq!(h.status, HealthStatus::Degraded);
    assert_eq!(h.details, "handshake rate: 75.0%");
    stats.handshake_failures = 12;
    let h = check_network_health(&stats);
    assert_eq!(h.status, HealthStatus::Unhealthy);
    assert_eq!(h.details, "low handshake rate: 42.9%");
    let mut other = NetworkStats::new("m".to_string());
    other.state = ConnectionState::Connecting;
    let all = check_health(&vec![stats.clone(), other]);
    assert_eq!(all.status, HealthStatus::Unhealthy);
    assert_eq!(all.details, "n: low handshake rate: 42.9%; m: connecting");
    assert!(all.is_unhealthy());
}
