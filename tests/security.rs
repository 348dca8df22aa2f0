use harmony_agent::error::WgAgentError;
use harmony_agent::security::{
    check_key_file_mode, is_secure_mode, validate_directory_security, sanitize_path, validate_file_permissions, validate_interface_name,
    validate_network_name, validate_port, validate_secure_defaults, PrivilegeLevel, SecureFileMode, SecurityContext,
    SecurityEvent,
};

#[test]
fn test_security_context_creation() {
    let ctx = SecurityContext::new(PrivilegeLevel::User);
    assert!(!ctx.memory_locked);
}

#[test]
fn test_security_event_logging() {
    let event = SecurityEvent::PrivilegeChange { from: "root".to_string(), to: "user".to_string() };
    let line = event.log();
    assert_eq!(line.text, "Security: Privilege changed from root to user");
    assert!(!line.warning);
}

#[test]
fn test_secure_file_mode() {
    assert_eq!(SecureFileMode::PrivateKey.description(), "0600 (owner read/write only)");
}

#[test]
fn test_max_mode() {
    assert_eq!(SecureFileMode::PrivateKey.max_mode(), 0o600);
    assert_eq!(SecureFileMode::Config.max_mode(), 0o640);
}

#[test]
fn test_privilege_level_display() {
    assert_eq!(PrivilegeLevel::Root.to_string(), "root");
    assert_eq!(PrivilegeLevel::User.to_string(), "user");
}

#[test]
fn test_is_elevated() {
    assert!(PrivilegeLevel::Root.is_elevated());
    assert!(!PrivilegeLevel::User.is_elevated());
}

#[test]
fn test_validate_network_name() {
    assert!(validate_network_name("default").is_ok());
    assert!(validate_network_name("my-network").is_ok());
    assert!(validate_network_name("net_123").is_ok());
    assert!(validate_network_name("").is_err());
    assert!(validate_network_name("my network").is_err());
    assert!(validate_network_name("-network").is_err());
    assert!(validate_network_name("network!").is_err());
}

#[test]
fn test_sanitize_path() {
    assert!(sanitize_path("/etc/config.toml").is_ok());
    assert!(sanitize_path("config/local.toml").is_ok());
    assert!(sanitize_path("../../../etc/passwd").is_err());
    assert!(sanitize_path("config/../../../secrets").is_err());
}

#[test]
fn test_validate_port() {
    assert!(validate_port(51820).is_ok());
    assert!(validate_port(1).is_ok());
    assert!(validate_port(65535).is_ok());
    assert!(validate_port(0).is_err());
}

#[test]
fn test_security_validation_integration() {
    assert!(validate_network_name("valid-network").is_ok());
    assert!(validate_network_name("my_network_123").is_ok());
    assert!(validate_network_name("").is_err());
    assert!(validate_network_name("-invalid").is_err());
    assert!(validate_interface_name("wg0").is_ok());
    assert!(validate_interface_name("wg_vpn").is_ok());
    assert!(validate_interface_name("0wg").is_err());
}

#[test]
fn privilege_level_from_ids() {
    assert_eq!(PrivilegeLevel::from_ids(0, 1000), PrivilegeLevel::Root);
    assert_eq!(PrivilegeLevel::from_ids(1000, 0), PrivilegeLevel::Root);
    assert_eq!(PrivilegeLevel::from_ids(1000, 1000), PrivilegeLevel::User);
}

#[test]
fn memory_is_locked_once() {
    let mut ctx = SecurityContext::new(PrivilegeLevel::Root);
    assert!(ctx.lock_memory(|| Err(WgAgentError::Security("no".to_string()))).is_err());
    assert!(!ctx.memory_locked);
    assert!(ctx.lock_memory(|| Ok(())).is_ok());
    assert!(ctx.memory_locked);
    assert!(ctx.lock_memory(|| Err(WgAgentError::Security("not asked".to_string()))).is_ok());
}

#[test]
fn privileges_drop_only_when_elevated() {
    let mut user = SecurityContext::new(PrivilegeLevel::User);
    assert!(user.drop_privileges(Some(1000), None, |_, _| Err(WgAgentError::Security("x".to_string()))).is_ok());
    assert_eq!(user.target_uid, None);
    let mut root = SecurityContext::new(PrivilegeLevel::Root);
    assert!(root.drop_privileges(Some(1000), Some(100), |_, _| Ok(())).is_ok());
    assert_eq!(root.privilege_level, PrivilegeLevel::User);
    assert_eq!(root.target_uid, Some(1000));
    assert_eq!(root.target_gid, Some(100));
}

#[test]
fn file_permission_rules() {
    assert!(validate_file_permissions(0o100600, 1000, 1000, SecureFileMode::PrivateKey).is_ok());
    assert!(validate_file_permissions(0o100644, 1000, 1000, SecureFileMode::PrivateKey).is_err());
    assert!(validate_file_permissions(0o640, 0, 1000, SecureFileMode::Config).is_ok());
    assert!(validate_file_permissions(0o640, 5, 1000, SecureFileMode::Config).is_err());
    assert!(check_key_file_mode(0o100600).is_ok());
    assert!(matches!(check_key_file_mode(0o100640), Err(WgAgentError::Permission(_))));
    assert!(check_key_file_mode(0o604).is_err());
}

#[test]
fn insecure_mode_setting() {
    assert!(is_secure_mode(None));
    assert!(!is_secure_mode(Some("1")));
    assert!(!is_secure_mode(Some("TRUE")));
    assert!(!is_secure_mode(Some("true")));
    assert!(is_secure_mode(Some("0")));
    assert!(is_secure_mode(Some("yes")));
    assert!(validate_secure_defaults(Some("True")).is_err());
    assert!(validate_secure_defaults(None).is_ok());
}

#[test]
fn sanitize_keeps_the_path_and_rejects_nul() {
    assert_eq!(sanitize_path("a/./b").unwrap(), "a/./b");
    assert!(sanitize_path("a\0b").is_err());
    assert!(sanitize_path("..").is_err());
    assert!(sanitize_path("a/..b").is_ok());
}

#[test]
fn directory_rules() {
    assert!(validate_directory_security(true, 0o755).is_ok());
    assert!(validate_directory_security(true, 0o777).is_err());
    assert!(validate_directory_security(false, 0o700).is_err());
}
