use harmony_agent::addr::{Endpoint, IpAddress};
use harmony_agent::device::{DeviceCommand, DeviceConfig, DeviceStats, Inbound, PeerTable, WgDevice};
use harmony_agent::error::WgAgentError;
use harmony_agent::keys::{KeyPair, PrivateKey};
use harmony_agent::peer::PeerConfig;
use harmony_agent::session::{KeyBytes, Session, SessionLog, SessionResult};

struct ScriptedSession {
    name: String,
    encapsulated: u32,
    decapsulated: u32,
}

impl Session for ScriptedSession {
    fn history(&self) -> SessionLog {
        unreachable!("the call history is a proof device, never built at run time")
    }

    fn opens(_local: KeyBytes, _peer: KeyBytes, _preshared: Option<[u8; 32]>, _keepalive: Option<u16>, _index: u32) -> bool {
        unreachable!("the open outcome is a proof device, never evaluated at run time")
    }

    fn open(_local: &PrivateKey, peer: &PeerConfig, _index: u32) -> Result<Self, WgAgentError> {
        if peer.name == "broken" {
            return Err(WgAgentError::WireGuard("cannot build".to_string()));
        }
        Ok(ScriptedSession { name: peer.name.clone(), encapsulated: 0, decapsulated: 0 })
    }
    fn encapsulate(&mut self, _packet: &[u8]) -> SessionResult {
        self.encapsulated += 1;
        match self.name.as_str() {
            "beta" => SessionResult::WriteToNetwork(b"ct".to_vec()),
            "bad" => SessionResult::Failed("boom".to_string()),
            _ => SessionResult::Done,
        }
    }
    fn decapsulate(&mut self, _source: Option<IpAddress>, _datagram: &[u8]) -> SessionResult {
        self.decapsulated += 1;
        match self.name.as_str() {
            "beta" => SessionResult::WriteToTunnelV4(b"pt".to_vec(), IpAddress::V4(10, 0, 0, 2)),
            _ => SessionResult::Done,
        }
    }
    fn tick(&mut self) -> SessionResult {
        match self.name.as_str() {
            "alpha" => SessionResult::WriteToNetwork(b"ka".to_vec()),
            _ => SessionResult::Done,
        }
    }
}

fn ep(a: u8, port: u16) -> Endpoint {
    Endpoint { ip: IpAddress::V4(a, a, a, a), port }
}

fn peer(name: &str, seed: u8, endpoint: Option<Endpoint>) -> PeerConfig {
    let mut c = PeerConfig::new(name.to_string(), PrivateKey::from_bytes([seed; 32]).public_key());
    c.endpoint = endpoint;
    c
}

fn device(peers: Vec<PeerConfig>) -> WgDevice<ScriptedSession> {
    let config = DeviceConfig {
        interface: "wg0".to_string(),
        mtu: 1420,
        keypair: KeyPair::from_private(PrivateKey::from_bytes([8u8; 32])),
        listen_port: 0,
        peers,
    };
    WgDevice::new(config, "utun7".to_string(), 51820, 0).unwrap()
}

#[test]
fn inbound_demultiplexes_by_endpoint() {
    let mut d = device(vec![peer("alpha", 1, Some(ep(1, 1))), peer("beta", 2, Some(ep(2, 2)))]);
    let r = d.on_datagram(&ep(2, 2), b"x", 5);
    assert_eq!(r, Inbound::Deliver(b"pt".to_vec()));
    assert_eq!(d.peers().slot(1).session.decapsulated, 1);
    assert_eq!(d.peers().slot(0).session.decapsulated, 0);
    let r = d.on_datagram(&ep(3, 3), b"x", 5);
    assert_eq!(r, Inbound::Unknown);
    assert_eq!(d.peers().slot(0).session.decapsulated, 0);
    assert_eq!(d.peers().slot(1).session.decapsulated, 1);
    assert_eq!(d.stats(), DeviceStats::new());
}

#[test]
fn quiet_inbound_refreshes_activity() {
    let mut d = device(vec![peer("alpha", 1, Some(ep(1, 1)))]);
    assert_eq!(d.on_datagram(&ep(1, 1), b"x", 77), Inbound::Quiet);
    assert_eq!(d.peers().slot(0).last_activity, 77);
}

#[test]
fn outbound_picks_first_session_that_sends() {
    let mut d = device(vec![peer("alpha", 1, Some(ep(1, 1))), peer("beta", 2, Some(ep(2, 2)))]);
    let t = d.on_tun_packet(b"payload").unwrap();
    assert_eq!(t.slot, 1);
    assert_eq!(t.endpoint, ep(2, 2));
    assert_eq!(t.bytes, b"ct".to_vec());
    d.on_sent(t.slot, t.bytes.len() as u64, 9);
    assert_eq!(d.stats().tx_packets, 1);
    assert_eq!(d.stats().tx_bytes, 2);
    assert_eq!(d.peers().slot(1).last_activity, 9);
}

#[test]
fn outbound_skips_sessions_after_the_winner_and_counts_failures() {
    let mut d = device(vec![peer("bad", 1, Some(ep(1, 1))), peer("beta", 2, Some(ep(2, 2))), peer("gamma", 3, Some(ep(3, 3)))]);
    let t = d.on_tun_packet(b"payload").unwrap();
    assert_eq!(t.slot, 1);
    assert_eq!(d.stats().errors, 1);
    assert_eq!(d.peers().slot(2).session.encapsulated, 0);
}

#[test]
fn sender_without_endpoint_is_passed_over() {
    let mut d = device(vec![peer("beta", 2, None)]);
    assert!(d.on_tun_packet(b"payload").is_none());
}

#[test]
fn timer_sends_to_peers_with_endpoints() {
    let mut d = device(vec![peer("alpha", 1, Some(ep(1, 1))), peer("beta", 2, Some(ep(2, 2)))]);
    let out = d.on_timer();
    assert_eq!(out.len(), 1);
    assert_eq!(out[0].slot, 0);
    assert_eq!(out[0].bytes, b"ka".to_vec());
}

#[test]
fn commands_add_and_remove_peers() {
    let mut d = device(vec![peer("alpha", 1, Some(ep(1, 1)))]);
    let added = peer("beta", 2, Some(ep(2, 2)));
    let key = added.public_key;
    assert!(d.handle_command(DeviceCommand::AddPeer(added), 0));
    assert_eq!(d.peers().len(), 2);
    assert_eq!(d.peers().lookup_endpoint(&ep(2, 2)), Some(1));
    assert!(d.handle_command(DeviceCommand::RemovePeer(key), 0));
    assert_eq!(d.peers().len(), 1);
    assert_eq!(d.peers().lookup_endpoint(&ep(2, 2)), None);
    assert!(!d.handle_command(DeviceCommand::Stop, 0));
}

#[test]
fn failed_add_changes_nothing_and_counts_an_error() {
    let mut d = device(vec![peer("alpha", 1, Some(ep(1, 1)))]);
    assert!(d.handle_command(DeviceCommand::AddPeer(peer("", 2, None)), 0));
    assert!(d.handle_command(DeviceCommand::AddPeer(peer("broken", 3, None)), 0));
    assert_eq!(d.peers().len(), 1);
    assert_eq!(d.stats().errors, 2);
}

#[test]
fn indexes_stay_unique_and_index_stays_consistent() {
    let mut t: PeerTable<ScriptedSession> = PeerTable::new();
    let local = PrivateKey::from_bytes([8u8; 32]);
    assert_eq!(t.add_peer(&local, peer("a", 1, Some(ep(1, 1))), 0).unwrap(), 0);
    assert_eq!(t.add_peer(&local, peer("b", 2, Some(ep(1, 1))), 0).unwrap(), 1);
    assert_eq!(t.add_peer(&local, peer("c", 1, Some(ep(3, 3))), 0).unwrap(), 2);
    assert_eq!(t.len(), 2);
    let mut seen: Vec<u32> = (0..t.len()).map(|i| t.slot(i).index).collect();
    seen.sort();
    seen.dedup();
    assert_eq!(seen.len(), t.len());
    assert_eq!(t.lookup_endpoint(&ep(1, 1)), None);
    let j = t.lookup_endpoint(&ep(3, 3)).unwrap();
    assert_eq!(t.slot(j).descriptor.name, "c");
}

#[test]
fn counters_never_decrease() {
    let mut d = device(vec![peer("alpha", 1, Some(ep(1, 1)))]);
    let s0 = d.stats();
    d.on_delivered(100);
    let s1 = d.stats();
    d.on_errors(3);
    d.on_sent(0, u64::MAX, 1);
    d.on_sent(0, 10, 2);
    let s2 = d.stats();
    for (a, b) in [(s0, s1), (s1, s2)] {
        assert!(a.tx_bytes <= b.tx_bytes && a.rx_bytes <= b.rx_bytes);
        assert!(a.tx_packets <= b.tx_packets && a.rx_packets <= b.rx_packets && a.errors <= b.errors);
    }
    assert_eq!(s2.tx_bytes, u64::MAX);
    assert_eq!(s2.rx_packets, 1);
    assert_eq!(s2.errors, 3);
}

#[test]
fn device_needs_at_least_one_peer() {
    let config = DeviceConfig {
        interface: "wg0".to_string(),
        mtu: 1420,
        keypair: KeyPair::from_private(PrivateKey::from_bytes([8u8; 32])),
        listen_port: 0,
        peers: vec![],
    };
    assert!(matches!(WgDevice::<ScriptedSession>::new(config, "wg0".to_string(), 1, 0), Err(WgAgentError::Config(_))));
    let d = device(vec![peer("alpha", 1, None)]);
    assert_eq!(d.interface_name(), "utun7");
}

#[test]
fn oversized_packet_runs_no_session() {
    let mut d = device(vec![peer("beta", 2, Some(ep(2, 2)))]);
    let big = vec![0u8; 65504];
    assert!(d.on_tun_packet(&big).is_none());
    assert_eq!(d.peers().slot(0).session.encapsulated, 0);
    let fits = vec![0u8; 65503];
    assert!(d.on_tun_packet(&fits).is_some());
    assert_eq!(d.peers().slot(0).session.encapsulated, 1);
}

#[test]
fn construction_keeps_order_indexes_and_endpoints() {
    let d = device(vec![peer("alpha", 1, Some(ep(1, 1))), peer("x", 4, None), peer("beta", 2, Some(ep(2, 2)))]);
    for i in 0..3 {
        assert_eq!(d.peers().slot(i).index, i as u32);
    }
    assert_eq!(d.peers().slot(1).descriptor.name, "x");
    assert_eq!(d.peers().lookup_endpoint(&ep(1, 1)), Some(0));
    assert_eq!(d.peers().lookup_endpoint(&ep(2, 2)), Some(2));
}
