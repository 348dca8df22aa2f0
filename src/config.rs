//! Defaults of the configuration files and control messages.

use vstd::prelude::*;
use crate::addr::{cidr_literal, ip_literal};
use crate::error::{msg, WgAgentError};
use crate::validation::{
    endpoint_text_ok, interface_name_ok, keepalive_ok, mtu_ok, public_key_text_ok, validate_cidr, validate_endpoint,
    validate_file_path, validate_interface_name, validate_ip_address, validate_keepalive, validate_mtu,
    validate_public_key,
};

verus! {

/// The network a control message addresses when it names none.
pub fn default_network_name() -> (r: String)
    ensures
        r@ == "default"@,
{
    msg("default")
}

/// The interface name used when a network names none.
pub fn default_interface() -> (r: String)
    ensures
        r@ == "wg0"@,
{
    msg("wg0")
}

/// The MTU used when a network sets none: the IPv6 minimum.
pub fn default_mtu() -> (r: u16)
    ensures
        r == 1280,
{
    1280
}

/// The persistent keepalive, in seconds, used when a peer sets none.
pub fn default_keepalive() -> (r: u16)
    ensures
        r == 25,
{
    25
}

/// A peer as the configuration file writes it: key and endpoint as text.
#[derive(Debug, Clone)]
pub struct PeerConfig {
    pub name: String,
    pub public_key: String,
    pub endpoint: String,
    pub allowed_ips: Vec<String>,
    pub persistent_keepalive_secs: u16,
}

/// A network as the configuration file writes it.
#[derive(Debug, Clone)]
pub struct NetworkConfig {
    pub enable_wireguard: bool,
    pub interface: String,
    pub mtu: u16,
    pub private_key_path: String,
    pub dns: Vec<String>,
    pub peers: Vec<PeerConfig>,
    pub http: Option<HttpConfig>,
}

/// Where the optional HTTP endpoint listens.
#[derive(Debug, Clone)]
pub struct HttpConfig {
    pub bind_address: String,
    pub bind_port: u16,
}

/// Every named network of a configuration file.
#[derive(Debug, Clone)]
pub struct Config {
    pub networks: Vec<(String, NetworkConfig)>,
}

/// A configured peer is valid: base64 key text, an endpoint `host:port`, CIDR ranges,
/// and a keepalive of 0 or 10..=300 seconds.
pub open spec fn peer_entry_ok(p: PeerConfig) -> bool {
    &&& public_key_text_ok(p.public_key@)
    &&& endpoint_text_ok(p.endpoint@)
    &&& forall|i: int| 0 <= i < p.allowed_ips@.len() ==> (#[trigger] cidr_literal(p.allowed_ips@[i]@)) is Some
    &&& keepalive_ok(p.persistent_keepalive_secs)
}

/// A configured network is valid: interface name, MTU, a key file path, DNS servers
/// that are IP literals, and valid peers.
pub open spec fn network_entry_ok(n: NetworkConfig) -> bool {
    &&& interface_name_ok(n.interface@)
    &&& mtu_ok(n.mtu)
    &&& n.private_key_path@.len() > 0
    &&& forall|i: int| 0 <= i < n.dns@.len() ==> (#[trigger] ip_literal(n.dns@[i]@)) is Some
    &&& forall|i: int| 0 <= i < n.peers@.len() ==> peer_entry_ok(#[trigger] n.peers@[i])
}

fn all_cidrs(v: &Vec<String>) -> (r: Result<(), WgAgentError>)
    ensures
        r is Ok <==> forall|i: int| 0 <= i < v@.len() ==> (#[trigger] cidr_literal(v@[i]@)) is Some,
        r is Err ==> r matches Err(WgAgentError::Config(_)),
{
    let mut i: usize = 0;
    while i < v.len()
        invariant
            i <= v@.len(),
            forall|j: int| 0 <= j < i ==> (#[trigger] cidr_literal(v@[j]@)) is Some,
        decreases v@.len() - i,
    {
        match validate_cidr(v[i].as_str()) {
            Ok(()) => {},
            Err(e) => {
                return Err(e);
            },
        }
        i = i + 1;
    }
    Ok(())
}

impl PeerConfig {
    pub fn validate(&self) -> (r: Result<(), WgAgentError>)
        ensures
            r is Ok <==> peer_entry_ok(*self),
            r is Err ==> r matches Err(WgAgentError::Config(_)),
    {
        validate_public_key(self.public_key.as_str())?;
        validate_endpoint(self.endpoint.as_str())?;
        all_cidrs(&self.allowed_ips)?;
        validate_keepalive(self.persistent_keepalive_secs)?;
        Ok(())
    }
}

impl NetworkConfig {
    pub fn validate(&self) -> (r: Result<(), WgAgentError>)
        ensures
            r is Ok <==> network_entry_ok(*self),
            r is Err ==> r matches Err(WgAgentError::Config(_)),
    {
        validate_interface_name(self.interface.as_str())?;
        validate_mtu(self.mtu)?;
        validate_file_path(self.private_key_path.as_str())?;
        let mut i: usize = 0;
        while i < self.dns.len()
            invariant
                i <= self.dns@.len(),
                forall|j: int| 0 <= j < i ==> (#[trigger] ip_literal(self.dns@[j]@)) is Some,
            decreases self.dns@.len() - i,
        {
            validate_ip_address(self.dns[i].as_str())?;
            i = i + 1;
        }
        let mut k: usize = 0;
        while k < self.peers.len()
            invariant
                k <= self.peers@.len(),
                forall|j: int| 0 <= j < k ==> peer_entry_ok(#[trigger] self.peers@[j]),
            decreases self.peers@.len() - k,
        {
            self.peers[k].validate()?;
            k = k + 1;
        }
        Ok(())
    }
}

impl Default for Config {
    fn default() -> (r: Config)
        ensures
            r.networks@.len() == 0,
    {
        Config { networks: Vec::new() }
    }
}

impl Config {
    pub fn new() -> (r: Config)
        ensures
            r.networks@.len() == 0,
    {
        Config { networks: Vec::new() }
    }

    /// Adds a network, replacing one of the same name.
    pub fn add_network(&mut self, name: String, config: NetworkConfig)
        ensures
            exists|i: int|
                0 <= i < final(self).networks@.len() && final(self).networks@[i].0@ == name@
                    && #[trigger] final(self).networks@[i].1 == config,
            final(self).networks@.len() <= old(self).networks@.len() + 1,
    {
        let mut i: usize = 0;
        while i < self.networks.len()
            invariant
                i <= self.networks@.len(),
                self.networks@.len() == old(self).networks@.len(),
            decreases self.networks@.len() - i,
        {
            if crate::tunnel::string_eq(&self.networks[i].0, name.as_str()) {
                let ghost nv = name@;
                let ghost cv = config;
                self.networks.set(i, (name, config));
                assert(self.networks@[i as int].0@ == nv && self.networks@[i as int].1 == cv);
                return;
            }
            i = i + 1;
        }
        let ghost nv = name@;
        let ghost cv = config;
        self.networks.push((name, config));
        let ghost n = self.networks@.len() - 1;
        assert(self.networks@[n].0@ == nv && self.networks@[n].1 == cv);
    }

    /// The network of a name, if there is one.
    pub fn get_network(&self, name: &str) -> (r: Option<&NetworkConfig>)
        ensures
            r is None <==> forall|i: int| 0 <= i < self.networks@.len() ==> self.networks@[i].0@ != name@,
            r matches Some(n) ==> exists|i: int|
                0 <= i < self.networks@.len() && self.networks@[i].0@ == name@ && #[trigger] self.networks@[i].1 == *n,
    {
        let mut i: usize = 0;
        while i < self.networks.len()
            invariant
                i <= self.networks@.len(),
                forall|j: int| 0 <= j < i ==> self.networks@[j].0@ != name@,
            decreases self.networks@.len() - i,
        {
            if crate::tunnel::string_eq(&self.networks[i].0, name) {
                return Some(&self.networks[i].1);
            }
            i = i + 1;
        }
        None
    }

    /// Checks every network.
    pub fn validate(&self) -> (r: Result<(), WgAgentError>)
        ensures
            r is Ok <==> forall|i: int| 0 <= i < self.networks@.len() ==> network_entry_ok(#[trigger] self.networks@[i].1),
            r is Err ==> r matches Err(WgAgentError::Config(_)),
    {
        let mut i: usize = 0;
        while i < self.networks.len()
            invariant
                i <= self.networks@.len(),
                forall|j: int| 0 <= j < i ==> network_entry_ok(#[trigger] self.networks@[j].1),
            decreases self.networks@.len() - i,
        {
            self.networks[i].1.validate()?;
            i = i + 1;
        }
        Ok(())
    }
}

} // verus!
