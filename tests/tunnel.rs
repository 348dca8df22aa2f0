use harmony_agent::addr::{Endpoint, IpAddress};
use harmony_agent::error::WgAgentError;
use harmony_agent::keys::{KeyPair, PrivateKey, PublicKey};
use harmony_agent::peer::PeerConfig;
use harmony_agent::session::{KeyBytes, Session, SessionLog, SessionResult};
use harmony_agent::tunnel::{OsLog, Platform, Tunnel, TunnelConfig, TunnelState};

struct QuietSession;

impl Session for QuietSession {
    fn history(&self) -> SessionLog {
        unreachable!("the call history is a proof device, never built at run time")
    }

    fn opens(_local: KeyBytes, _peer: KeyBytes, _preshared: Option<[u8; 32]>, _keepalive: Option<u16>, _index: u32) -> bool {
        unreachable!("the open outcome is a proof device, never evaluated at run time")
    }

    fn open(_local: &PrivateKey, _peer: &PeerConfig, _index: u32) -> Result<Self, WgAgentError> {
        Ok(QuietSession)
    }
    fn encapsulate(&mut self, _packet: &[u8]) -> SessionResult {
        SessionResult::Done
    }
    fn decapsulate(&mut self, _source: Option<IpAddress>, _datagram: &[u8]) -> SessionResult {
        SessionResult::Done
    }
    fn tick(&mut self) -> SessionResult {
        SessionResult::Done
    }
}

#[derive(Default)]
struct RecordingOs {
    calls: Vec<String>,
    missing: Vec<String>,
    check_fails: bool,
}

impl Platform for RecordingOs {
    fn calls(&self) -> OsLog {
        unreachable!("the request log is a proof device, never built at run time")
    }

    fn check_capabilities(&mut self) -> Result<Vec<String>, WgAgentError> {
        if self.check_fails {
            return Err(WgAgentError::Platform("cannot inspect capabilities".to_string()));
        }
        Ok(self.missing.clone())
    }
    fn create_tun(&mut self, name: &str, mtu: u16) -> Result<String, WgAgentError> {
        self.calls.push(format!("create_tun({},{})", name, mtu));
        Ok(name.to_string())
    }
    fn bind_udp(&mut self, _port: u16) -> Result<u16, WgAgentError> {
        Ok(40000)
    }
    fn destroy_interface(&mut self, name: &str) -> Result<(), WgAgentError> {
        self.calls.push(format!("destroy_interface({})", name));
        Ok(())
    }
    fn configure_routes(&mut self, interface: &str, routes: &Vec<String>) -> Result<(), WgAgentError> {
        self.calls.push(format!("add_routes({},{:?})", interface, routes));
        Ok(())
    }
    fn remove_routes(&mut self, interface: &str, routes: &Vec<String>) -> Result<(), WgAgentError> {
        self.calls.push(format!("remove_routes({},{:?})", interface, routes));
        Ok(())
    }
    fn configure_dns(&mut self, interface: &str, servers: &Vec<String>) -> Result<(), WgAgentError> {
        self.calls.push(format!("configure_dns({},{:?})", interface, servers));
        Ok(())
    }
    fn remove_dns(&mut self, interface: &str) -> Result<(), WgAgentError> {
        self.calls.push(format!("remove_dns({})", interface));
        Ok(())
    }
}

fn one_peer_config() -> TunnelConfig {
    let mut peer = PeerConfig::new("p".to_string(), PublicKey::from_base64("AAAAAAAAAAAAAAAAAAAAAAAAAAAAAAAAAAAAAAAAAAA=").unwrap());
    peer.set_endpoint("10.0.0.1:51820").unwrap();
    peer.allowed_ips = vec!["10.0.0.0/24".to_string()];
    peer.set_keepalive_secs(25);
    TunnelConfig {
        interface: "wg0".to_string(),
        mtu: 1420,
        dns_servers: vec![],
        keypair: KeyPair::from_private(PrivateKey::from_bytes([5u8; 32])),
        peers: vec![peer],
    }
}

#[test]
fn tunnel_test_tunnel_state_transitions() {
    let state = TunnelState::Uninitialized;
    assert!(state.can_start());
    assert!(!state.can_stop());
    assert!(!state.is_running());

    let state = TunnelState::Active;
    assert!(!state.can_start());
    assert!(state.can_stop());
    assert!(state.is_running());
}

#[test]
fn tunnel_test_tunnel_config_validation() {
    let keypair = KeyPair::generate();
    let config = TunnelConfig {
        interface: "wg0".to_string(),
        mtu: 1420,
        dns_servers: vec![],
        keypair,
        peers: vec![],
    };
    assert!(config.validate().is_ok());
}

#[test]
fn test_tunnel_config_invalid_mtu() {
    let keypair = KeyPair::generate();
    let config = TunnelConfig {
        interface: "wg0".to_string(),
        mtu: 2000,
        dns_servers: vec![],
        keypair,
        peers: vec![],
    };
    assert!(config.validate().is_err());
}

#[test]
fn test_tunnel_config_empty_interface() {
    let keypair = KeyPair::generate();
    let config = TunnelConfig {
        interface: "".to_string(),
        mtu: 1420,
        dns_servers: vec![],
        keypair,
        peers: vec![],
    };
    assert!(config.validate().is_err());
}

#[test]
fn lifecycle_happy_path_records_os_calls() {
    let mut os = RecordingOs::default();
    let mut tunnel: Tunnel<QuietSession> = Tunnel::new(one_peer_config()).unwrap();
    assert_eq!(tunnel.state(), TunnelState::Uninitialized);
    tunnel.start(&mut os, 0).unwrap();
    assert_eq!(tunnel.state(), TunnelState::Active);
    assert_eq!(os.calls, vec!["create_tun(wg0,1420)".to_string(), "add_routes(wg0,[\"10.0.0.0/24\"])".to_string()]);
    os.calls.clear();
    tunnel.stop(&mut os).unwrap();
    assert_eq!(
        os.calls,
        vec![
            "remove_dns(wg0)".to_string(),
            "remove_routes(wg0,[\"10.0.0.0/24\"])".to_string(),
            "destroy_interface(wg0)".to_string()
        ]
    );
    assert_eq!(tunnel.state(), TunnelState::Stopped);
}

#[test]
fn start_twice_is_refused_but_restart_after_stop_works() {
    let mut os = RecordingOs::default();
    let mut tunnel: Tunnel<QuietSession> = Tunnel::new(one_peer_config()).unwrap();
    tunnel.start(&mut os, 0).unwrap();
    assert!(matches!(tunnel.start(&mut os, 0), Err(WgAgentError::InvalidState(_))));
    assert_eq!(tunnel.state(), TunnelState::Active);
    tunnel.stop(&mut os).unwrap();
    assert!(tunnel.start(&mut os, 0).is_ok());
    assert_eq!(tunnel.state(), TunnelState::Active);
}

#[test]
fn stop_is_refused_unless_running() {
    let mut os = RecordingOs::default();
    let mut tunnel: Tunnel<QuietSession> = Tunnel::new(one_peer_config()).unwrap();
    assert!(matches!(tunnel.stop(&mut os), Err(WgAgentError::InvalidState(_))));
    assert_eq!(tunnel.state(), TunnelState::Uninitialized);
}

#[test]
fn missing_capability_puts_tunnel_in_error() {
    let mut os = RecordingOs::default();
    os.missing = vec!["CAP_NET_ADMIN".to_string()];
    let mut tunnel: Tunnel<QuietSession> = Tunnel::new(one_peer_config()).unwrap();
    assert!(matches!(tunnel.start(&mut os, 0), Err(WgAgentError::Platform(_))));
    assert_eq!(tunnel.state(), TunnelState::Error);
    assert!(os.calls.is_empty());
    os.missing.clear();
    assert!(tunnel.start(&mut os, 0).is_ok());
}

#[test]
fn device_needs_a_peer() {
    let mut os = RecordingOs::default();
    let mut config = one_peer_config();
    config.peers.clear();
    let mut tunnel: Tunnel<QuietSession> = Tunnel::new(config).unwrap();
    assert!(matches!(tunnel.start(&mut os, 0), Err(WgAgentError::Config(_))));
    assert_eq!(tunnel.state(), TunnelState::Error);
}

#[test]
fn stats_and_names_after_start() {
    let mut os = RecordingOs::default();
    let mut tunnel: Tunnel<QuietSession> = Tunnel::new(one_peer_config()).unwrap();
    let before = tunnel.stats(0);
    assert_eq!(before.interface, "wg0");
    assert_eq!(before.total_peers, 0);
    assert_eq!(before.state, TunnelState::Uninitialized);
    tunnel.start(&mut os, 0).unwrap();
    let s = tunnel.stats(0);
    assert_eq!(s.total_peers, 1);
    assert_eq!(s.active_peers, 1);
    assert_eq!(s.healthy_peers, 1);
    assert_eq!(tunnel.stats(180).healthy_peers, 0);
    assert_eq!(tunnel.peer_names(), vec!["p".to_string()]);
    assert_eq!(tunnel.peer_status("p", 0), Some("active (no recent handshake)".to_string()));
    assert_eq!(tunnel.peer_status("q", 0), None);
    let ep = Endpoint { ip: IpAddress::V4(10, 0, 0, 1), port: 51820 };
    assert!(tunnel.device_mut().unwrap().peers().lookup_endpoint(&ep).is_some());
}

#[test]
fn state_names() {
    assert_eq!(TunnelState::Uninitialized.to_string(), "uninitialized");
    assert_eq!(TunnelState::Starting.to_string(), "starting");
    assert_eq!(TunnelState::Active.to_string(), "active");
    assert_eq!(TunnelState::Stopping.to_string(), "stopping");
    assert_eq!(TunnelState::Stopped.to_string(), "stopped");
    assert_eq!(TunnelState::Error.to_string(), "error");
}

#[test]
fn config_validation_covers_every_descriptor() {
    let mut config = one_peer_config();
    assert!(config.validate().is_ok());
    config.mtu = 1280;
    assert!(config.validate().is_ok());
    config.mtu = 1279;
    assert!(config.validate().is_err());
    config.mtu = 1500;
    let mut bad = PeerConfig::new("bad".to_string(), PrivateKey::from_bytes([1u8; 32]).public_key());
    bad.allowed_ips = vec!["10.0.0.0/33".to_string()];
    config.peers.push(bad);
    assert!(config.validate().is_err());
}

#[test]
fn stats_line() {
    let mut os = RecordingOs::default();
    let mut tunnel: Tunnel<QuietSession> = Tunnel::new(one_peer_config()).unwrap();
    tunnel.start(&mut os, 0).unwrap();
    assert_eq!(
        tunnel.stats(0).to_string(),
        "Tunnel wg0 [active]: 1 peers (1 active, 1 healthy), TX: 0 bytes, RX: 0 bytes"
    );
}

#[test]
fn failed_capability_check_does_not_stop_the_start() {
    let mut os = RecordingOs::default();
    os.check_fails = true;
    let mut tunnel: Tunnel<QuietSession> = Tunnel::new(one_peer_config()).unwrap();
    assert!(tunnel.start(&mut os, 0).is_ok());
    assert_eq!(tunnel.state(), TunnelState::Active);
    assert_eq!(os.calls[0], "create_tun(wg0,1420)");
}
