use harmony_agent::validation::{
    validate_cidr, validate_endpoint, validate_file_path, validate_interface_name, validate_ip_address,
    validate_keepalive, validate_mtu, validate_public_key,
};
use harmony_agent::error::WgAgentError;
use harmony_agent::security;

#[test]
fn validation_test_validate_interface_name() {
    assert!(validate_interface_name("wg0").is_ok());
    assert!(validate_interface_name("wg-test").is_ok());
    assert!(validate_interface_name("wg_test").is_ok());
    assert!(validate_interface_name("").is_err());
    assert!(validate_interface_name("wg@test").is_err());
    assert!(validate_interface_name("toolonginterfacename").is_err());

    assert!(security::validate_interface_name("wg0").is_ok());
    assert!(security::validate_interface_name("wg_vpn").is_ok());
    assert!(security::validate_interface_name("").is_err());
    assert!(security::validate_interface_name("0wg").is_err());
    assert!(security::validate_interface_name("wg-0").is_err());
}

#[test]
fn validation_test_validate_mtu() {
    assert!(validate_mtu(1280).is_ok());
    assert!(validate_mtu(1420).is_ok());
    assert!(validate_mtu(1500).is_ok());
    assert!(validate_mtu(1279).is_err());
    assert!(validate_mtu(1501).is_err());

    assert!(security::validate_mtu(1420).is_ok());
    assert!(security::validate_mtu(1500).is_ok());
    assert!(security::validate_mtu(100).is_err());
    assert!(security::validate_mtu(65535).is_ok());
}

#[test]
fn validation_test_validate_ip_address() {
    assert!(validate_ip_address("192.168.1.1").is_ok());
    assert!(validate_ip_address("10.0.0.1").is_ok());
    assert!(validate_ip_address("::1").is_ok());
    assert!(validate_ip_address("fe80::1").is_ok());
    assert!(validate_ip_address("invalid").is_err());
    assert!(validate_ip_address("256.1.1.1").is_err());

    assert!(security::validate_ip_address("192.168.1.1").is_ok());
    assert!(security::validate_ip_address("::1").is_ok());
    assert!(security::validate_ip_address("2001:db8::1").is_ok());
    assert!(security::validate_ip_address("256.1.1.1").is_err());
    assert!(security::validate_ip_address("not-an-ip").is_err());
}

#[test]
fn validation_test_validate_cidr() {
    assert!(validate_cidr("192.168.1.0/24").is_ok());
    assert!(validate_cidr("10.0.0.0/8").is_ok());
    assert!(validate_cidr("fe80::/64").is_ok());
    assert!(validate_cidr("192.168.1.1").is_err());
    assert!(validate_cidr("192.168.1.0/33").is_err());
    assert!(validate_cidr("fe80::/129").is_err());

    assert!(security::validate_cidr("192.168.1.0/24").is_ok());
    assert!(security::validate_cidr("10.0.0.0/8").is_ok());
    assert!(security::validate_cidr("2001:db8::/32").is_ok());
    assert!(security::validate_cidr("192.168.1.0/33").is_err());
    assert!(security::validate_cidr("192.168.1.0").is_err());
    assert!(security::validate_cidr("invalid/24").is_err());
}

#[test]
fn test_validate_endpoint() {
    assert!(validate_endpoint("example.com:51820").is_ok());
    assert!(validate_endpoint("192.168.1.1:51820").is_ok());
    assert!(validate_endpoint("[::1]:51820").is_ok());
    assert!(validate_endpoint("invalid").is_err());
    assert!(validate_endpoint("example.com:0").is_err());
    assert!(validate_endpoint(":51820").is_err());
}

#[test]
fn test_validate_public_key() {
    let valid_key = "abcdefghijklmnopqrstuvwxyzABCDEFGHIJKLMNOP==";
    assert_eq!(valid_key.len(), 44);
    assert!(validate_public_key(valid_key).is_ok());
    assert!(validate_public_key("").is_err());
    assert!(validate_public_key("tooshort").is_err());
    assert!(validate_public_key("invalid@characters#here1234567890123456==").is_err());
}

#[test]
fn test_validate_keepalive() {
    assert!(validate_keepalive(0).is_ok());
    assert!(validate_keepalive(25).is_ok());
    assert!(validate_keepalive(300).is_ok());
    assert!(validate_keepalive(5).is_err());
    assert!(validate_keepalive(301).is_err());
}

#[test]
fn mtu_bounds_are_exact() {
    for mtu in [1280u16, 1500] {
        assert!(validate_mtu(mtu).is_ok());
    }
    for mtu in [1279u16, 1501, 0, 65535] {
        assert!(matches!(validate_mtu(mtu), Err(WgAgentError::Config(_))));
    }
}

#[test]
fn prefix_bounds_per_family() {
    assert!(validate_cidr("0.0.0.0/0").is_ok());
    assert!(validate_cidr("10.0.0.0/32").is_ok());
    assert!(validate_cidr("::/128").is_ok());
    assert!(validate_cidr("2001:db8::/128").is_ok());
    assert!(validate_cidr("10.0.0.0/33").is_err());
    assert!(validate_cidr("::/129").is_err());
    assert!(validate_cidr("10.0.0.0/").is_err());
    assert!(validate_cidr("10.0.0.0/8/8").is_err());
    assert!(validate_cidr("10.0.0/8").is_err());
    assert!(validate_cidr("01.0.0.0/8").is_err());
}

#[test]
fn keepalive_bounds() {
    assert!(validate_keepalive(0).is_ok());
    assert!(validate_keepalive(10).is_ok());
    assert!(validate_keepalive(300).is_ok());
    for secs in 1u16..10 {
        assert!(validate_keepalive(secs).is_err());
    }
    assert!(validate_keepalive(301).is_err());
    assert!(validate_keepalive(u16::MAX).is_err());
}

#[test]
fn file_path_must_not_be_empty() {
    assert!(validate_file_path("").is_err());
    assert!(validate_file_path("/etc/key").is_ok());
}
