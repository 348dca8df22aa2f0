use harmony_agent::config::{default_interface, default_keepalive, default_mtu, default_network_name};

#[test]
fn defaults() {
    assert_eq!(default_network_name(), "default");
    assert_eq!(default_interface(), "wg0");
    assert_eq!(default_mtu(), 1280);
    assert_eq!(default_keepalive(), 25);
}
