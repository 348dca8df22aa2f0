use harmony_agent::addr::IpAddress;
use harmony_agent::api::{ApiError, ApiRequest, ApiResponse, ControlAction};
use harmony_agent::error::WgAgentError;
use harmony_agent::handler::CommandHandler;
use harmony_agent::keys::{KeyPair, PrivateKey};
use harmony_agent::tunnel::TunnelConfig;
use harmony_agent::peer::PeerConfig;
use harmony_agent::session::{KeyBytes, Session, SessionLog, SessionResult};
use harmony_agent::tunnel::{OsLog, Platform};

struct NullSession;

impl Session for NullSession {
    fn history(&self) -> SessionLog {
        unreachable!("the call history is a proof device, never built at run time")
    }

    fn opens(_local: KeyBytes, _peer: KeyBytes, _preshared: Option<[u8; 32]>, _keepalive: Option<u16>, _index: u32) -> bool {
        unreachable!("the open outcome is a proof device, never evaluated at run time")
    }

    fn open(_local: &PrivateKey, _peer: &PeerConfig, _index: u32) -> Result<Self, WgAgentError> {
        Ok(NullSession)
    }
    fn encapsulate(&mut self, _packet: &[u8]) -> SessionResult {
        SessionResult::Done
    }
    fn decapsulate(&mut self, _source: Option<IpAddress>, _datagram: &[u8]) -> SessionResult {
        SessionResult::Done
    }
    fn tick(&mut self) -> SessionResult {
        SessionResult::Done
    }
}

struct NoOs;

impl Platform for NoOs {
    fn calls(&self) -> OsLog {
        unreachable!("the request log is a proof device, never built at run time")
    }

    fn check_capabilities(&mut self) -> Result<Vec<String>, WgAgentError> {
        Ok(vec![])
    }
    fn create_tun(&mut self, name: &str, _mtu: u16) -> Result<String, WgAgentError> {
        Ok(name.to_string())
    }
    fn bind_udp(&mut self, _port: u16) -> Result<u16, WgAgentError> {
        Ok(1)
    }
    fn destroy_interface(&mut self, _name: &str) -> Result<(), WgAgentError> {
        Ok(())
    }
    fn configure_routes(&mut self, _interface: &str, _routes: &Vec<String>) -> Result<(), WgAgentError> {
        Ok(())
    }
    fn remove_routes(&mut self, _interface: &str, _routes: &Vec<String>) -> Result<(), WgAgentError> {
        Ok(())
    }
    fn configure_dns(&mut self, _interface: &str, _servers: &Vec<String>) -> Result<(), WgAgentError> {
        Ok(())
    }
    fn remove_dns(&mut self, _interface: &str) -> Result<(), WgAgentError> {
        Ok(())
    }
}

#[test]
fn test_api_request_new() {
    let req = ApiRequest::new("test-1".to_string(), ControlAction::Status, "default".to_string());
    assert_eq!(req.id, "test-1");
    assert_eq!(req.action, ControlAction::Status);
    assert_eq!(req.network, "default");
}

#[test]
fn test_api_response_success() {
    let resp = ApiResponse::success("test-1".to_string(), Some("{\"status\":\"ok\"}".to_string()));
    assert!(resp.success);
    assert!(resp.data.is_some());
    assert!(resp.error.is_none());
}

#[test]
fn test_api_response_error() {
    let resp = ApiResponse::error("test-1".to_string(), ApiError::NetworkNotFound("test".to_string()));
    assert!(!resp.success);
    assert!(resp.data.is_none());
    assert!(resp.error.is_some());
}

#[test]
fn test_api_error_conversion() {
    let wg_error = WgAgentError::Config("test error".to_string());
    let api_error: ApiError = wg_error.into();
    match api_error {
        ApiError::ConfigError(msg) => assert_eq!(msg, "test error"),
        _ => panic!("Wrong error type"),
    }
}

#[test]
fn error_kinds_map_as_documented() {
    assert_eq!(ApiError::from(WgAgentError::NotFound("n".to_string())), ApiError::NetworkNotFound("n".to_string()));
    assert_eq!(ApiError::from(WgAgentError::Permission("p".to_string())), ApiError::PermissionDenied("p".to_string()));
    assert_eq!(ApiError::from(WgAgentError::Timeout("t".to_string())), ApiError::InternalError("t".to_string()));
}

#[test]
fn status_of_unknown_network_echoes_the_same_answer() {
    let mut h: CommandHandler<NullSession> = CommandHandler::new();
    let req = ApiRequest::new("q1".to_string(), ControlAction::Status, "x".to_string());
    let first = h.handle_request(&req, &mut NoOs, 0).to_json();
    assert_eq!(first, "{\"id\":\"q1\",\"success\":false,\"error\":{\"type\":\"network_not_found\",\"message\":\"x\"}}");
    let second = h.handle_request(&req, &mut NoOs, 0).to_json();
    assert_eq!(first, second);
}

#[test]
fn disconnect_of_never_connected_network_is_not_found() {
    let mut h: CommandHandler<NullSession> = CommandHandler::new();
    let req = ApiRequest::new("d1".to_string(), ControlAction::Disconnect, "prod".to_string());
    let r = h.handle_request(&req, &mut NoOs, 0);
    assert!(!r.success);
    assert_eq!(r.error, Some(ApiError::NetworkNotFound("prod".to_string())));
}

#[test]
fn malformed_line_gets_parse_error_under_unknown_id() {
    let r = ApiResponse::parse_failure("expected value".to_string());
    assert_eq!(r.id, "unknown");
    assert_eq!(r.to_json(), "{\"id\":\"unknown\",\"success\":false,\"error\":{\"type\":\"parse_error\",\"message\":\"expected value\"}}");
}

#[test]
fn rotate_keys_is_not_implemented() {
    let mut h: CommandHandler<NullSession> = CommandHandler::new();
    let req = ApiRequest::new("r".to_string(), ControlAction::RotateKeys, "x".to_string());
    let r = h.handle_request(&req, &mut NoOs, 0);
    assert_eq!(r.error, Some(ApiError::InternalError("not implemented".to_string())));
}

#[test]
fn json_strings_are_escaped() {
    let r = ApiResponse::error("a\"b\\c\n\u{1}".to_string(), ApiError::AuthenticationFailed);
    assert_eq!(r.to_json(), "{\"id\":\"a\\\"b\\\\c\\n\\u0001\",\"success\":false,\"error\":{\"type\":\"authentication_failed\"}}");
}

#[test]
fn action_names() {
    assert_eq!(ControlAction::Connect.as_str(), "connect");
    assert_eq!(ControlAction::Disconnect.as_str(), "disconnect");
    assert_eq!(ControlAction::Status.as_str(), "status");
    assert_eq!(ControlAction::Reload.as_str(), "reload");
    assert_eq!(ControlAction::RotateKeys.as_str(), "rotate_keys");
}

fn network_config() -> TunnelConfig {
    let mut peer = PeerConfig::new("peer-a".to_string(), PrivateKey::from_bytes([2u8; 32]).public_key());
    peer.set_endpoint("10.0.0.1:51820").unwrap();
    peer.allowed_ips = vec!["10.0.0.0/24".to_string()];
    TunnelConfig {
        interface: "wg0".to_string(),
        mtu: 1420,
        dns_servers: vec![],
        keypair: KeyPair::from_private(PrivateKey::from_bytes([1u8; 32])),
        peers: vec![peer],
    }
}

#[test]
fn connect_status_disconnect_round() {
    let mut h: CommandHandler<NullSession> = CommandHandler::new();
    h.load_config("x".to_string(), network_config());
    assert_eq!(h.list_networks(), vec!["x".to_string()]);
    let connect = ApiRequest::new("c1".to_string(), ControlAction::Connect, "x".to_string());
    let r = h.handle_request(&connect, &mut NoOs, 0);
    assert!(r.success, "{:?}", r.error);
    assert_eq!(r.data.unwrap(), "{\"interface\":\"wg0\",\"network\":\"x\",\"peers\":1,\"state\":\"active\"}");
    let again = h.handle_request(&connect, &mut NoOs, 0);
    assert!(matches!(again.error, Some(ApiError::InvalidState(_))));
    let status = ApiRequest::new("s1".to_string(), ControlAction::Status, "x".to_string());
    let r = h.handle_request(&status, &mut NoOs, 0);
    assert_eq!(
        r.to_json(),
        "{\"id\":\"s1\",\"success\":true,\"data\":{\"interface\":\"wg0\",\"network\":\"x\",\"peers\":{\"active\":1,\"healthy\":1,\"names\":[\"peer-a\"],\"total\":1},\"state\":\"active\",\"traffic\":{\"rx_bytes\":0,\"tx_bytes\":0}}}"
    );
    let disconnect = ApiRequest::new("d1".to_string(), ControlAction::Disconnect, "x".to_string());
    let r = h.handle_request(&disconnect, &mut NoOs, 0);
    assert!(r.success);
    assert_eq!(r.data.unwrap(), "{\"network\":\"x\",\"state\":\"stopped\"}");
    let r = h.handle_request(&status, &mut NoOs, 0);
    assert_eq!(r.error, Some(ApiError::NetworkNotFound("x".to_string())));
}

#[test]
fn connect_without_configuration_is_a_config_error() {
    let mut h: CommandHandler<NullSession> = CommandHandler::new();
    let connect = ApiRequest::new("c".to_string(), ControlAction::Connect, "nowhere".to_string());
    let r = h.handle_request(&connect, &mut NoOs, 0);
    assert!(matches!(r.error, Some(ApiError::ConfigError(_))));
}
