//! The tunnel life cycle: validation of a network's configuration, the state machine,
//! and the start and stop sequences over the OS abstraction.

use vstd::prelude::*;
use crate::addr::cidr_literal;
use crate::device::{device_builds, DeviceConfig, DeviceStats, WgDevice};
use crate::error::{msg, WgAgentError};
use crate::keys::KeyPair;
use crate::peer::{peer_config_ok, Peer, PeerConfig, recent};
use crate::session::Session;
use crate::text::{decimal_text, u64_text};
use crate::validation::mtu_ok;

verus! {

/// Where a tunnel is in its life cycle.
#[derive(Debug, Clone, Copy, PartialEq, Eq, Structural)]
pub enum TunnelState {
    Uninitialized,
    Starting,
    Active,
    Stopping,
    Stopped,
    Error,
}

/// The transitions the life cycle allows.
pub open spec fn successor(s: TunnelState, t: TunnelState) -> bool {
    match s {
        TunnelState::Uninitialized => t == TunnelState::Starting,
        TunnelState::Stopped => t == TunnelState::Starting,
        TunnelState::Error => t == TunnelState::Starting,
        TunnelState::Starting => t == TunnelState::Active || t == TunnelState::Error || t
            == TunnelState::Stopping,
        TunnelState::Active => t == TunnelState::Stopping,
        TunnelState::Stopping => t == TunnelState::Stopped || t == TunnelState::Error,
    }
}

/// `Stopped` and `Error` are terminal: the only way out is `start`, into `Starting`;
/// `Uninitialized` is left the same way, and only `Starting` can reach `Active`.
pub proof fn lemma_terminal_states_only_restart(s: TunnelState, t: TunnelState)
    ensures
        (s == TunnelState::Stopped || s == TunnelState::Error || s == TunnelState::Uninitialized)
            && successor(s, t) ==> t == TunnelState::Starting,
        successor(s, TunnelState::Active) ==> s == TunnelState::Starting,
        successor(s, t) ==> startable(s) == (t == TunnelState::Starting),
{
}

pub open spec fn startable(s: TunnelState) -> bool {
    s == TunnelState::Uninitialized || s == TunnelState::Stopped || s == TunnelState::Error
}

pub open spec fn stoppable(s: TunnelState) -> bool {
    s == TunnelState::Active || s == TunnelState::Starting
}

impl TunnelState {
    /// Only `Active` counts as running.
    pub fn is_running(&self) -> (r: bool)
        ensures
            r == (*self == TunnelState::Active),
    {
        match self {
            TunnelState::Active => true,
            _ => false,
        }
    }

    /// `start` is allowed from `Uninitialized`, `Stopped` and `Error`.
    pub fn can_start(&self) -> (r: bool)
        ensures
            r == startable(*self),
    {
        match self {
            TunnelState::Uninitialized | TunnelState::Stopped | TunnelState::Error => true,
            _ => false,
        }
    }

    /// `stop` is allowed from `Active` and `Starting`.
    pub fn can_stop(&self) -> (r: bool)
        ensures
            r == stoppable(*self),
    {
        match self {
            TunnelState::Active | TunnelState::Starting => true,
            _ => false,
        }
    }

    /// The state's name as the control protocol writes it.
    pub fn to_string(&self) -> (r: String)
        ensures
            r@ == state_name(*self),
    {
        match self {
            TunnelState::Uninitialized => msg("uninitialized"),
            TunnelState::Starting => msg("starting"),
            TunnelState::Active => msg("active"),
            TunnelState::Stopping => msg("stopping"),
            TunnelState::Stopped => msg("stopped"),
            TunnelState::Error => msg("error"),
        }
    }
}

pub open spec fn state_name(s: TunnelState) -> Seq<char> {
    match s {
        TunnelState::Uninitialized => "uninitialized"@,
        TunnelState::Starting => "starting"@,
        TunnelState::Active => "active"@,
        TunnelState::Stopping => "stopping"@,
        TunnelState::Stopped => "stopped"@,
        TunnelState::Error => "error"@,
    }
}

/// The configuration of one network's tunnel.
#[derive(Clone)]
pub struct TunnelConfig {
    pub interface: String,
    pub mtu: u16,
    pub dns_servers: Vec<String>,
    pub keypair: KeyPair,
    pub peers: Vec<PeerConfig>,
}

/// A tunnel configuration is valid: an interface name, an MTU in 1280..=1500, and every
/// peer descriptor valid on its own.
pub open spec fn tunnel_config_ok(c: TunnelConfig) -> bool {
    &&& c.interface@.len() > 0
    &&& mtu_ok(c.mtu)
    &&& forall|i: int| 0 <= i < c.peers@.len() ==> peer_config_ok(#[trigger] c.peers@[i])
}

/// Two configurations say the same thing.
pub open spec fn same_config(a: TunnelConfig, b: TunnelConfig) -> bool {
    &&& a.interface@ == b.interface@
    &&& a.mtu == b.mtu
    &&& texts(a.dns_servers@) == texts(b.dns_servers@)
    &&& a.keypair.private@ == b.keypair.private@
    &&& a.keypair.public == b.keypair.public
    &&& a.peers@.len() == b.peers@.len()
    &&& forall|i: int| 0 <= i < a.peers@.len() ==> crate::peer::same_descriptor(#[trigger] a.peers@[i], b.peers@[i])
}

/// Validity is a matter of what the configuration says.
pub proof fn lemma_same_config_ok(a: TunnelConfig, b: TunnelConfig)
    requires
        same_config(a, b),
    ensures
        tunnel_config_ok(a) == tunnel_config_ok(b),
{
    assert forall|i: int| 0 <= i < a.peers@.len() implies peer_config_ok(#[trigger] a.peers@[i]) == peer_config_ok(b.peers@[i]) by {
        let x = a.peers@[i];
        let y = b.peers@[i];
        assert(crate::peer::same_descriptor(x, y));
        if peer_config_ok(x) {
            assert forall|j: int| 0 <= j < y.allowed_ips@.len() implies (#[trigger] cidr_literal(y.allowed_ips@[j]@)) is Some by {
                assert(x.allowed_ips@[j]@ == y.allowed_ips@[j]@);
                assert(cidr_literal(x.allowed_ips@[j]@) is Some);
            }
        }
        if peer_config_ok(y) {
            assert forall|j: int| 0 <= j < x.allowed_ips@.len() implies (#[trigger] cidr_literal(x.allowed_ips@[j]@)) is Some by {
                assert(x.allowed_ips@[j]@ == y.allowed_ips@[j]@);
                assert(cidr_literal(y.allowed_ips@[j]@) is Some);
            }
        }
    }
    if tunnel_config_ok(a) {
        assert forall|i: int| 0 <= i < b.peers@.len() implies peer_config_ok(#[trigger] b.peers@[i]) by {
            assert(peer_config_ok(a.peers@[i]));
        }
    }
    if tunnel_config_ok(b) {
        assert forall|i: int| 0 <= i < a.peers@.len() implies peer_config_ok(#[trigger] a.peers@[i]) by {
            assert(peer_config_ok(b.peers@[i]));
        }
    }
}

impl TunnelConfig {
    /// A copy saying the same thing.
    pub fn duplicate(&self) -> (r: TunnelConfig)
        ensures
            same_config(r, *self),
    {
        let mut dns: Vec<String> = Vec::new();
        let mut i: usize = 0;
        while i < self.dns_servers.len()
            invariant
                i <= self.dns_servers@.len(),
                dns@ == self.dns_servers@.subrange(0, i as int),
            decreases self.dns_servers@.len() - i,
        {
            dns.push(self.dns_servers[i].clone());
            i = i + 1;
            assert(dns@ =~= self.dns_servers@.subrange(0, i as int));
        }
        assert(dns@ =~= self.dns_servers@);
        let peers = copy_peers(&self.peers);
        TunnelConfig {
            interface: self.interface.clone(),
            mtu: self.mtu,
            dns_servers: dns,
            keypair: self.keypair.duplicate(),
            peers,
        }
    }

    /// Checks the interface name, the MTU and each peer descriptor.
    pub fn validate(&self) -> (r: Result<(), WgAgentError>)
        ensures
            r is Ok <==> tunnel_config_ok(*self),
            r is Err ==> r matches Err(WgAgentError::Config(_)),
    {
        if self.interface.as_str().is_empty() {
            return Err(WgAgentError::Config(msg("Interface name cannot be empty")));
        }
        if self.mtu < 1280 || self.mtu > 1500 {
            return Err(WgAgentError::Config(msg("MTU is out of valid range (1280-1500)")));
        }
        let mut i: usize = 0;
        while i < self.peers.len()
            invariant
                i <= self.peers@.len(),
                forall|j: int| 0 <= j < i ==> peer_config_ok(#[trigger] self.peers@[j]),
            decreases self.peers@.len() - i,
        {
            match self.peers[i].validate() {
                Ok(()) => {},
                Err(e) => {
                    return Err(e);
                },
            }
            i = i + 1;
        }
        Ok(())
    }
}

/// One request made of the operating system, with what decides the tunnel's course.
pub enum OsCall {
    /// `None` when the check itself failed, else how many capabilities are missing.
    CheckCapabilities(Option<nat>),
    /// The name asked for, the MTU, and the name the OS gave, if it created the device.
    CreateTun(Seq<char>, u16, Option<Seq<char>>),
    /// The port asked for, and whether the socket was bound.
    BindUdp(u16, bool),
    DestroyInterface(Seq<char>),
    AddRoutes(Seq<char>, Seq<Seq<char>>),
    RemoveRoutes(Seq<char>, Seq<Seq<char>>),
    ConfigureDns(Seq<char>, Seq<Seq<char>>),
    RemoveDns(Seq<char>),
}

/// A log of OS requests; it exists for proofs only and is never built at run time.
pub type OsLog = Seq<OsCall>;

pub open spec fn texts(v: Seq<String>) -> Seq<Seq<char>> {
    v.map_values(|s: String| s@)
}

/// The operating system services a tunnel needs. Each may fail with a diagnostic.
/// `calls` is the log of requests made so far; each method appends its own.
pub trait Platform {
    spec fn calls(&self) -> OsLog;

    /// Lists the capabilities the process lacks (root, CAP_NET_ADMIN); empty when none.
    fn check_capabilities(&mut self) -> (r: Result<Vec<String>, WgAgentError>)
        ensures
            final(self).calls() == old(self).calls().push(OsCall::CheckCapabilities(match r {
                Ok(v) => Some(v@.len()),
                Err(_) => None,
            })),
    ;

    /// Creates a non-blocking TUN device and returns the name the OS gave it.
    fn create_tun(&mut self, name: &str, mtu: u16) -> (r: Result<String, WgAgentError>)
        ensures
            final(self).calls() == old(self).calls().push(OsCall::CreateTun(name@, mtu, match r {
                Ok(n) => Some(n@),
                Err(_) => None,
            })),
    ;

    /// Binds the UDP socket on all addresses and returns the port it got.
    fn bind_udp(&mut self, port: u16) -> (r: Result<u16, WgAgentError>)
        ensures
            final(self).calls() == old(self).calls().push(OsCall::BindUdp(port, r is Ok)),
    ;

    fn destroy_interface(&mut self, name: &str) -> (r: Result<(), WgAgentError>)
        ensures
            final(self).calls() == old(self).calls().push(OsCall::DestroyInterface(name@)),
    ;

    fn configure_routes(&mut self, interface: &str, routes: &Vec<String>) -> (r: Result<(), WgAgentError>)
        ensures
            final(self).calls() == old(self).calls().push(OsCall::AddRoutes(interface@, texts(routes@))),
    ;

    fn remove_routes(&mut self, interface: &str, routes: &Vec<String>) -> (r: Result<(), WgAgentError>)
        ensures
            final(self).calls() == old(self).calls().push(OsCall::RemoveRoutes(interface@, texts(routes@))),
    ;

    fn configure_dns(&mut self, interface: &str, servers: &Vec<String>) -> (r: Result<(), WgAgentError>)
        ensures
            final(self).calls() == old(self).calls().push(OsCall::ConfigureDns(interface@, texts(servers@))),
    ;

    fn remove_dns(&mut self, interface: &str) -> (r: Result<(), WgAgentError>)
        ensures
            final(self).calls() == old(self).calls().push(OsCall::RemoveDns(interface@)),
    ;
}

/// The route requests for the peers that have allowed ranges, in order: added when
/// `add`, else removed.
pub open spec fn route_calls(peers: Seq<PeerConfig>, iface: Seq<char>, add: bool) -> Seq<OsCall>
    decreases peers.len(),
{
    if peers.len() == 0 {
        Seq::empty()
    } else {
        let rest = route_calls(peers.drop_last(), iface, add);
        let ips = peers.last().allowed_ips@;
        if ips.len() > 0 {
            rest.push(if add {
                OsCall::AddRoutes(iface, texts(ips))
            } else {
                OsCall::RemoveRoutes(iface, texts(ips))
            })
        } else {
            rest
        }
    }
}

/// The DNS request, made only when servers are configured.
pub open spec fn dns_calls(servers: Seq<String>, iface: Seq<char>) -> Seq<OsCall> {
    if servers.len() > 0 {
        seq![OsCall::ConfigureDns(iface, texts(servers))]
    } else {
        Seq::empty()
    }
}

/// The requests `start` makes, given what the OS answers: the capability check; if
/// nothing is missing (or the check could not be made), the TUN device under the configured name and MTU; if created, the
/// UDP socket on any port; if that fails or the device cannot be built, the interface
/// is destroyed again; else the routes of each peer with ranges and the DNS servers, on
/// the name the OS gave. `up` holds when the tunnel came up.
pub open spec fn start_calls(c: TunnelConfig, a: Seq<OsCall>, up: bool) -> bool {
    &&& a.len() >= 1
    &&& a[0] is CheckCapabilities
    &&& !capabilities_pass(a[0]) ==> a.len() == 1 && !up
    &&& capabilities_pass(a[0]) ==> {
        &&& a.len() >= 2
        &&& a[1] is CreateTun
        &&& a[1]->CreateTun_0 == c.interface@
        &&& a[1]->CreateTun_1 == c.mtu
        &&& match a[1]->CreateTun_2 {
            None => a.len() == 2 && !up,
            Some(name) => {
                &&& a.len() >= 3
                &&& a[2] is BindUdp
                &&& a[2]->BindUdp_0 == 0
                &&& !a[2]->BindUdp_1 ==> !up
                &&& !up ==> a.len() == 4 && a[3] == OsCall::DestroyInterface(name)
                &&& up ==> a[2]->BindUdp_1 && a.subrange(3, a.len() as int) == route_calls(c.peers@, name, true)
                    + dns_calls(c.dns_servers@, name)
            },
        }
    }
}

/// The capability check lets the start go on: nothing is missing, or the check itself
/// could not be made.
pub open spec fn capabilities_pass(c: OsCall) -> bool {
    c == OsCall::CheckCapabilities(Some(0)) || c == OsCall::CheckCapabilities(None)
}

/// The OS did its part of a start: the capability check passed, the TUN device was
/// created and the UDP socket bound.
pub open spec fn os_came_up(a: Seq<OsCall>) -> bool {
    &&& a.len() >= 3
    &&& capabilities_pass(a[0])
    &&& a[1] is CreateTun && a[1]->CreateTun_2 is Some
    &&& a[2] == OsCall::BindUdp(0, true)
}

/// The requests `stop` makes: remove DNS, remove each peer's routes, destroy the
/// interface.
pub open spec fn stop_calls(c: TunnelConfig, iface: Seq<char>) -> Seq<OsCall> {
    seq![OsCall::RemoveDns(iface)] + route_calls(c.peers@, iface, false) + seq![OsCall::DestroyInterface(iface)]
}

/// A snapshot of a tunnel for status reports.
#[derive(Debug, Clone)]
pub struct TunnelStats {
    pub state: TunnelState,
    pub interface: String,
    pub total_peers: usize,
    pub active_peers: usize,
    pub healthy_peers: usize,
    pub total_tx_bytes: u64,
    pub total_rx_bytes: u64,
}

impl TunnelStats {
    /// "Tunnel <iface> [<state>]: <n> peers (<a> active, <h> healthy), TX: <tx> bytes, RX: <rx> bytes".
    pub fn to_string(&self) -> (r: String)
        ensures
            r@ == "Tunnel "@ + self.interface@ + " ["@ + state_name(self.state) + "]: "@ + decimal_text(
                self.total_peers as nat,
            ) + " peers ("@ + decimal_text(self.active_peers as nat) + " active, "@ + decimal_text(
                self.healthy_peers as nat,
            ) + " healthy), TX: "@ + decimal_text(self.total_tx_bytes as nat) + " bytes, RX: "@
                + decimal_text(self.total_rx_bytes as nat) + " bytes"@,
    {
        let mut s = msg("Tunnel ");
        s.append(self.interface.as_str());
        s.append(" [");
        s.append(self.state.to_string().as_str());
        s.append("]: ");
        s.append(u64_text(self.total_peers as u64).as_str());
        s.append(" peers (");
        s.append(u64_text(self.active_peers as u64).as_str());
        s.append(" active, ");
        s.append(u64_text(self.healthy_peers as u64).as_str());
        s.append(" healthy), TX: ");
        s.append(u64_text(self.total_tx_bytes).as_str());
        s.append(" bytes, RX: ");
        s.append(u64_text(self.total_rx_bytes).as_str());
        s.append(" bytes");
        s
    }
}

/// One network's tunnel: its configuration, life-cycle state, the peers shown in status
/// reports, and the device while it is active.
pub struct Tunnel<S> {
    config: TunnelConfig,
    state: TunnelState,
    interface: String,
    peers: Vec<Peer>,
    device: Option<WgDevice<S>>,
    soft_failures: u64,
}

impl<S> Tunnel<S> {
    pub closed spec fn spec_state(&self) -> TunnelState {
        self.state
    }

    pub closed spec fn spec_config(&self) -> TunnelConfig {
        self.config
    }

    pub closed spec fn has_device(&self) -> bool {
        self.device is Some
    }

    /// The interface name the OS calls use: the one the OS gave at the last start.
    pub closed spec fn spec_interface(&self) -> Seq<char> {
        self.interface@
    }

    pub closed spec fn peer_view(&self) -> Seq<Peer> {
        self.peers@
    }

    /// Bytes sent and received: the device's counters while it runs, else the
    /// saturating sums over the shown peers.
    pub closed spec fn traffic(&self) -> (u64, u64) {
        match self.device {
            Some(d) => (d.counters().tx_bytes, d.counters().rx_bytes),
            None => (sum_tx(self.peers@), sum_rx(self.peers@)),
        }
    }

    /// Peers active within the last 180 seconds: by the device's activity times while it
    /// runs, else by the shown peers' handshakes.
    pub closed spec fn healthy_count(&self, now: u64) -> nat {
        match self.device {
            Some(d) => crate::device::count_recent(d.table().slots(), now),
            None => count_healthy(self.peers@, now),
        }
    }

    /// The device is present exactly while the tunnel is active.
    pub open spec fn wf(&self) -> bool {
        self.has_device() <==> self.spec_state() == TunnelState::Active
    }

    /// A tunnel for a valid configuration, not yet started.
    pub fn new(config: TunnelConfig) -> (r: Result<Tunnel<S>, WgAgentError>)
        ensures
            r is Ok <==> tunnel_config_ok(config),
            r is Err ==> r matches Err(WgAgentError::Config(_)),
            r matches Ok(t) ==> t.wf() && t.spec_state() == TunnelState::Uninitialized && t.peer_view().len() == 0
                && t.spec_config() == config,
    {
        match config.validate() {
            Ok(()) => {},
            Err(e) => {
                return Err(e);
            },
        }
        let interface = config.interface.clone();
        Ok(Tunnel { config, state: TunnelState::Uninitialized, interface, peers: Vec::new(), device: None, soft_failures: 0 })
    }

    pub fn state(&self) -> (r: TunnelState)
        ensures
            r == self.spec_state(),
    {
        self.state
    }

    /// The configuration the tunnel was built from.
    pub fn config(&self) -> (r: &TunnelConfig)
        ensures
            *r == self.spec_config(),
    {
        &self.config
    }

    pub closed spec fn spec_soft_failures(&self) -> u64 {
        self.soft_failures
    }

    /// How many route, DNS or teardown steps failed without stopping the sequence.
    pub fn soft_failures(&self) -> (r: u64)
        ensures
            r == self.spec_soft_failures(),
    {
        self.soft_failures
    }

    /// The running device, while the tunnel is active.
    pub fn device_mut(&mut self) -> Option<&mut WgDevice<S>> {
        self.device.as_mut()
    }

    /// Names of the peers shown in status reports.
    pub fn peer_names(&self) -> (r: Vec<String>)
        ensures
            r@.len() == self.peer_view().len(),
            forall|i: int| 0 <= i < r@.len() ==> #[trigger] r@[i]@ == self.peer_view()[i].config.name@,
    {
        let mut out: Vec<String> = Vec::new();
        let mut i: usize = 0;
        while i < self.peers.len()
            invariant
                i <= self.peers@.len(),
                out@.len() == i,
                forall|j: int| 0 <= j < i ==> #[trigger] out@[j]@ == self.peers@[j].config.name@,
            decreases self.peers@.len() - i,
        {
            out.push(self.peers[i].config.name.clone());
            i = i + 1;
        }
        out
    }

    /// The status line of the peer with a name, if it is shown.
    pub fn peer_status(&self, name: &str, now: u64) -> (r: Option<String>)
        ensures
            r is None <==> forall|i: int| 0 <= i < self.peer_view().len() ==> self.peer_view()[i].config.name@ != name@,
    {
        let mut i: usize = 0;
        while i < self.peers.len()
            invariant
                i <= self.peers@.len(),
                forall|j: int| 0 <= j < i ==> self.peers@[j].config.name@ != name@,
            decreases self.peers@.len() - i,
        {
            if string_eq(&self.peers[i].config.name, name) {
                return Some(self.peers[i].status(now));
            }
            i = i + 1;
        }
        None
    }
}

impl<S: Session> Tunnel<S> {
    /// Brings the tunnel up: checks capabilities, creates the TUN device and binds UDP,
    /// builds the device, then installs routes and DNS (their failures are counted, not
    /// fatal) and marks every peer active. Allowed only from `Uninitialized`, `Stopped`
    /// and `Error`, and a refused start changes nothing; any failure before routes leaves
    /// the tunnel in `Error`. The requests made of the OS are those of `start_calls`.
    pub fn start<P: Platform>(&mut self, platform: &mut P, now: u64) -> (r: Result<(), WgAgentError>)
        requires
            old(self).wf(),
        ensures
            final(self).wf(),
            final(self).spec_config() == old(self).spec_config(),
            !startable(old(self).spec_state()) ==> (r matches Err(WgAgentError::InvalidState(_)))
                && *final(self) == *old(self) && final(platform).calls() == old(platform).calls(),
            startable(old(self).spec_state()) ==> start_calls(
                old(self).spec_config(),
                final(platform).calls().subrange(old(platform).calls().len() as int, final(platform).calls().len() as int),
                r is Ok,
            ),
            startable(old(self).spec_state()) ==> successor(old(self).spec_state(), TunnelState::Starting)
                && successor(TunnelState::Starting, final(self).spec_state()),
            startable(old(self).spec_state()) ==> (r is Ok <==> final(self).spec_state() == TunnelState::Active),
            startable(old(self).spec_state()) && r is Err ==> final(self).spec_state() == TunnelState::Error,
            ({
                let a = final(platform).calls().subrange(old(platform).calls().len() as int, final(platform).calls().len() as int);
                startable(old(self).spec_state()) && os_came_up(a) ==> {
                    &&& device_builds::<S>(old(self).spec_config().keypair.private@, old(self).spec_config().peers@) ==> r is Ok
                    &&& old(self).spec_config().peers@.len() == 0 ==> (r matches Err(WgAgentError::Config(_)))
                    &&& r is Ok ==> final(self).spec_interface() == a[1]->CreateTun_2->0
                }
            }),
            r is Ok ==> final(self).peer_view().len() <= old(self).spec_config().peers@.len()
                && forall|i: int| 0 <= i < final(self).peer_view().len() ==> (#[trigger] final(self).peer_view()[i]).active,
    {
        if !self.state.can_start() {
            return Err(WgAgentError::InvalidState(msg("Cannot start tunnel in this state")));
        }
        let ghost base = platform.calls();
        self.state = TunnelState::Starting;
        match platform.check_capabilities() {
            Ok(missing) => {
                if missing.len() > 0 {
                    self.state = TunnelState::Error;
                    assert(platform.calls().subrange(base.len() as int, platform.calls().len() as int) =~= seq![
                        OsCall::CheckCapabilities(Some(missing@.len())),
                    ]);
                    return Err(WgAgentError::Platform(msg("Missing required capabilities")));
                }
            },
            Err(_) => {},
        }
        let ghost c0 = platform.calls().last();
        assert(platform.calls() =~= base.push(c0));
        assert(capabilities_pass(c0));
        let actual = match platform.create_tun(self.config.interface.as_str(), self.config.mtu) {
            Ok(name) => name,
            Err(e) => {
                self.state = TunnelState::Error;
                assert(platform.calls().subrange(base.len() as int, platform.calls().len() as int) =~= seq![
                    c0,
                    OsCall::CreateTun(self.config.interface@, self.config.mtu, None),
                ]);
                return Err(e);
            },
        };
        let ghost c1 = OsCall::CreateTun(self.config.interface@, self.config.mtu, Some(actual@));
        let port = match platform.bind_udp(0) {
            Ok(p) => p,
            Err(e) => {
                let _ = platform.destroy_interface(actual.as_str());
                self.state = TunnelState::Error;
                assert(platform.calls().subrange(base.len() as int, platform.calls().len() as int) =~= seq![
                    c0,
                    c1,
                    OsCall::BindUdp(0, false),
                    OsCall::DestroyInterface(actual@),
                ]);
                return Err(e);
            },
        };
        let ghost c2 = OsCall::BindUdp(0, true);
        let device_config = DeviceConfig {
            interface: self.config.interface.clone(),
            mtu: self.config.mtu,
            keypair: self.config.keypair.duplicate(),
            listen_port: port,
            peers: copy_peers(&self.config.peers),
        };
        proof {
            lemma_device_builds_copy::<S>(self.config.keypair.private@, self.config.peers@, device_config.peers@);
        }
        let device = match WgDevice::new(device_config, actual.clone(), port, now) {
            Ok(d) => d,
            Err(e) => {
                let _ = platform.destroy_interface(actual.as_str());
                self.state = TunnelState::Error;
                assert(platform.calls().subrange(base.len() as int, platform.calls().len() as int) =~= seq![
                    c0,
                    c1,
                    c2,
                    OsCall::DestroyInterface(actual@),
                ]);
                return Err(e);
            },
        };
        let ghost head = base + seq![c0, c1, c2];
        assert(platform.calls() =~= head);
        assert(self.config.peers@.subrange(0, 0) =~= Seq::<PeerConfig>::empty());
        let mut i: usize = 0;
        while i < self.config.peers.len()
            invariant
                i <= self.config.peers@.len(),
                self.state == TunnelState::Starting,
                self.config == old(self).config,
                self.device is None,
                platform.calls() == head + route_calls(self.config.peers@.subrange(0, i as int), actual@, true),
            decreases self.config.peers@.len() - i,
        {
            assert(self.config.peers@.subrange(0, i + 1).drop_last() =~= self.config.peers@.subrange(0, i as int));
            if self.config.peers[i].allowed_ips.len() > 0 {
                match platform.configure_routes(actual.as_str(), &self.config.peers[i].allowed_ips) {
                    Ok(()) => {},
                    Err(_) => {
                        self.soft_failures = self.soft_failures.saturating_add(1);
                    },
                }
            }
            i = i + 1;
        }
        assert(self.config.peers@.subrange(0, self.config.peers@.len() as int) =~= self.config.peers@);
        if self.config.dns_servers.len() > 0 {
            match platform.configure_dns(actual.as_str(), &self.config.dns_servers) {
                Ok(()) => {},
                Err(_) => {
                    self.soft_failures = self.soft_failures.saturating_add(1);
                },
            }
        }
        let ghost a = platform.calls().subrange(base.len() as int, platform.calls().len() as int);
        assert(a.subrange(3, a.len() as int) =~= route_calls(old(self).config.peers@, actual@, true) + dns_calls(
            old(self).config.dns_servers@,
            actual@,
        ));
        assert(a[0] == c0 && a[1] == c1 && a[2] == c2);
        let mut view: Vec<Peer> = Vec::new();
        let mut j: usize = 0;
        while j < self.config.peers.len()
            invariant
                j <= self.config.peers@.len(),
                view@.len() <= j,
                forall|k: int| 0 <= k < view@.len() ==> (#[trigger] view@[k]).active,
            decreases self.config.peers@.len() - j,
        {
            match Peer::new(self.config.peers[j].duplicate()) {
                Ok(mut p) => {
                    p.activate();
                    view.push(p);
                },
                Err(_) => {},
            }
            j = j + 1;
        }
        self.peers = view;
        self.interface = actual;
        self.device = Some(device);
        self.state = TunnelState::Active;
        Ok(())
    }
}

impl<S> Tunnel<S> {
    /// Tears the tunnel down, every step best-effort: drops the device, clears the peers,
    /// then asks the OS to remove DNS, the routes of each peer, and the interface. Allowed
    /// only from `Active` and `Starting`; it always ends in `Stopped`.
    pub fn stop<P: Platform>(&mut self, platform: &mut P) -> (r: Result<(), WgAgentError>)
        requires
            old(self).wf(),
        ensures
            final(self).wf(),
            final(self).spec_config() == old(self).spec_config(),
            !stoppable(old(self).spec_state()) ==> (r matches Err(WgAgentError::InvalidState(_)))
                && *final(self) == *old(self) && final(platform).calls() == old(platform).calls(),
            stoppable(old(self).spec_state()) ==> r is Ok && final(self).spec_state() == TunnelState::Stopped
                && successor(old(self).spec_state(), TunnelState::Stopping)
                && successor(TunnelState::Stopping, TunnelState::Stopped)
                && final(self).peer_view().len() == 0
                && final(platform).calls() == old(platform).calls() + stop_calls(old(self).spec_config(), old(self).spec_interface()),
    {
        if !self.state.can_stop() {
            return Err(WgAgentError::InvalidState(msg("Cannot stop tunnel in this state")));
        }
        self.state = TunnelState::Stopping;
        self.device = None;
        let mut i: usize = 0;
        while i < self.peers.len()
            invariant
                i <= self.peers@.len(),
                self.state == TunnelState::Stopping,
                self.config == old(self).config,
                self.device is None,
                self.interface == old(self).interface,
            decreases self.peers@.len() - i,
        {
            self.peers[i].deactivate();
            i = i + 1;
        }
        self.peers = Vec::new();
        let ghost base = platform.calls();
        match platform.remove_dns(self.interface.as_str()) {
            Ok(()) => {},
            Err(_) => {
                self.soft_failures = self.soft_failures.saturating_add(1);
            },
        }
        assert(self.config.peers@.subrange(0, 0) =~= Seq::<PeerConfig>::empty());
        assert(platform.calls() =~= base + seq![OsCall::RemoveDns(self.interface@)] + route_calls(
            self.config.peers@.subrange(0, 0),
            self.interface@,
            false,
        ));
        let mut k: usize = 0;
        while k < self.config.peers.len()
            invariant
                k <= self.config.peers@.len(),
                self.state == TunnelState::Stopping,
                self.config == old(self).config,
                self.device is None,
                self.peers@.len() == 0,
                self.interface == old(self).interface,
                platform.calls() == base + seq![OsCall::RemoveDns(self.interface@)] + route_calls(
                    self.config.peers@.subrange(0, k as int),
                    self.interface@,
                    false,
                ),
            decreases self.config.peers@.len() - k,
        {
            assert(self.config.peers@.subrange(0, k + 1).drop_last() =~= self.config.peers@.subrange(0, k as int));
            if self.config.peers[k].allowed_ips.len() > 0 {
                match platform.remove_routes(self.interface.as_str(), &self.config.peers[k].allowed_ips) {
                    Ok(()) => {},
                    Err(_) => {
                        self.soft_failures = self.soft_failures.saturating_add(1);
                    },
                }
            }
            k = k + 1;
        }
        assert(self.config.peers@.subrange(0, self.config.peers@.len() as int) =~= self.config.peers@);
        match platform.destroy_interface(self.interface.as_str()) {
            Ok(()) => {},
            Err(_) => {
                self.soft_failures = self.soft_failures.saturating_add(1);
            },
        }
        assert(platform.calls() =~= old(platform).calls() + stop_calls(self.config, self.interface@));
        self.state = TunnelState::Stopped;
        Ok(())
    }

    /// A status snapshot. While a device runs, traffic totals come from its counters and
    /// healthy peers are those that sent or received in the last 180 seconds; otherwise
    /// totals are sums over the shown peers and healthy peers are active ones with a
    /// handshake in the last 180 seconds.
    pub fn stats(&self, now: u64) -> (r: TunnelStats)
        ensures
            r.state == self.spec_state(),
            r.total_peers == self.peer_view().len(),
            r.active_peers == count_active(self.peer_view()),
            r.healthy_peers == self.healthy_count(now),
            r.interface@ == self.spec_interface(),
            r.total_tx_bytes == self.traffic().0,
            r.total_rx_bytes == self.traffic().1,
    {
        let mut active: usize = 0;
        let mut healthy: usize = 0;
        let mut tx: u64 = 0;
        let mut rx: u64 = 0;
        let mut i: usize = 0;
        while i < self.peers.len()
            invariant
                i <= self.peers@.len(),
                active == count_active(self.peers@.subrange(0, i as int)),
                healthy == count_healthy(self.peers@.subrange(0, i as int), now),
                active <= i,
                healthy <= i,
                tx == sum_tx(self.peers@.subrange(0, i as int)),
                rx == sum_rx(self.peers@.subrange(0, i as int)),
            decreases self.peers@.len() - i,
        {
            let ghost p = self.peers@.subrange(0, i as int);
            assert(self.peers@.subrange(0, i + 1).drop_last() =~= p);
            if self.peers[i].active {
                active = active + 1;
            }
            if self.peers[i].is_healthy(now) {
                healthy = healthy + 1;
            }
            tx = tx.saturating_add(self.peers[i].stats.tx_bytes);
            rx = rx.saturating_add(self.peers[i].stats.rx_bytes);
            i = i + 1;
        }
        assert(self.peers@.subrange(0, self.peers@.len() as int) =~= self.peers@);
        let (total_tx, total_rx, healthy) = match &self.device {
            Some(d) => {
                let c: DeviceStats = d.stats();
                (c.tx_bytes, c.rx_bytes, d.recently_active(now))
            },
            None => (tx, rx, healthy),
        };
        TunnelStats {
            state: self.state,
            interface: self.interface.clone(),
            total_peers: self.peers.len(),
            active_peers: active,
            healthy_peers: healthy,
            total_tx_bytes: total_tx,
            total_rx_bytes: total_rx,
        }
    }
}

impl<S: Session> Tunnel<S> {
    /// Stops the tunnel, then starts it again with a new configuration. A configuration
    /// that is not valid is refused after the stop, and the tunnel stays stopped.
    pub fn reload<P: Platform>(&mut self, new_config: TunnelConfig, platform: &mut P, now: u64) -> (r: Result<(), WgAgentError>)
        requires
            old(self).wf(),
        ensures
            final(self).wf(),
            !stoppable(old(self).spec_state()) ==> (r matches Err(WgAgentError::InvalidState(_)))
                && final(self).spec_state() == old(self).spec_state(),
            stoppable(old(self).spec_state()) && !tunnel_config_ok(new_config) ==> (r matches Err(WgAgentError::Config(_)))
                && final(self).spec_state() == TunnelState::Stopped,
            stoppable(old(self).spec_state()) && tunnel_config_ok(new_config) ==> final(self).spec_config() == new_config
                && (r is Ok <==> final(self).spec_state() == TunnelState::Active),
            stoppable(old(self).spec_state()) && r is Err ==> final(self).spec_state() == TunnelState::Stopped
                || final(self).spec_state() == TunnelState::Error,
            r is Ok <==> final(self).spec_state() == TunnelState::Active,
    {
        match self.stop(platform) {
            Ok(()) => {},
            Err(e) => {
                return Err(e);
            },
        }
        match new_config.validate() {
            Ok(()) => {},
            Err(e) => {
                return Err(e);
            },
        }
        self.config = new_config;
        self.interface = self.config.interface.clone();
        self.start(platform, now)
    }
}

proof fn lemma_device_builds_copy<S: Session>(local: Seq<u8>, ps: Seq<PeerConfig>, qs: Seq<PeerConfig>)
    requires
        qs.len() == ps.len(),
        forall|i: int| 0 <= i < ps.len() ==> crate::peer::same_descriptor(#[trigger] qs[i], ps[i]),
    ensures
        device_builds::<S>(local, ps) ==> device_builds::<S>(local, qs),
        ps.len() == 0 ==> qs.len() == 0,
{
    if device_builds::<S>(local, ps) {
        assert forall|j: int| 0 <= j < qs.len() implies peer_config_ok(#[trigger] qs[j]) by {
            let x = qs[j];
            let y = ps[j];
            assert(crate::peer::same_descriptor(x, y));
            assert(peer_config_ok(y));
            assert forall|k: int| 0 <= k < x.allowed_ips@.len() implies (#[trigger] cidr_literal(x.allowed_ips@[k]@)) is Some by {
                assert(x.allowed_ips@[k]@ == y.allowed_ips@[k]@);
                assert(cidr_literal(y.allowed_ips@[k]@) is Some);
            }
        }
        assert forall|i: int, j: int| 0 <= i < j < qs.len() implies #[trigger] qs[i].public_key@ != #[trigger] qs[j].public_key@
            && (qs[i].endpoint is Some ==> qs[i].endpoint != qs[j].endpoint) by {
            assert(crate::peer::same_descriptor(qs[i], ps[i]));
            assert(crate::peer::same_descriptor(qs[j], ps[j]));
            assert(ps[i].public_key@ != ps[j].public_key@);
        }
        assert forall|j: int| 0 <= j < qs.len() implies S::opens(
            local,
            (#[trigger] qs[j]).public_key@,
            qs[j].preshared_key,
            qs[j].keepalive_interval,
            j as u32,
        ) by {
            assert(crate::peer::same_descriptor(qs[j], ps[j]));
            assert(S::opens(local, ps[j].public_key@, ps[j].preshared_key, ps[j].keepalive_interval, j as u32));
        }
    }
}

/// Copies a list of descriptors field for field.
fn copy_peers(v: &Vec<PeerConfig>) -> (r: Vec<PeerConfig>)
    ensures
        r@.len() == v@.len(),
        forall|i: int| 0 <= i < v@.len() ==> crate::peer::same_descriptor(#[trigger] r@[i], v@[i]),
{
    let mut out: Vec<PeerConfig> = Vec::new();
    let mut i: usize = 0;
    while i < v.len()
        invariant
            i <= v@.len(),
            out@.len() == i,
            forall|j: int| 0 <= j < i ==> crate::peer::same_descriptor(#[trigger] out@[j], v@[j]),
        decreases v@.len() - i,
    {
        out.push(v[i].duplicate());
        i = i + 1;
    }
    out
}

pub open spec fn sum_tx(p: Seq<Peer>) -> u64
    decreases p.len(),
{
    if p.len() == 0 {
        0
    } else {
        crate::device::sat_add(sum_tx(p.drop_last()), p.last().stats.tx_bytes)
    }
}

pub open spec fn sum_rx(p: Seq<Peer>) -> u64
    decreases p.len(),
{
    if p.len() == 0 {
        0
    } else {
        crate::device::sat_add(sum_rx(p.drop_last()), p.last().stats.rx_bytes)
    }
}

pub open spec fn count_active(p: Seq<Peer>) -> nat
    decreases p.len(),
{
    if p.len() == 0 {
        0
    } else {
        count_active(p.drop_last()) + if p.last().active { 1nat } else { 0nat }
    }
}

pub open spec fn count_healthy(p: Seq<Peer>, now: u64) -> nat
    decreases p.len(),
{
    if p.len() == 0 {
        0
    } else {
        count_healthy(p.drop_last(), now) + if p.last().active && recent(p.last().stats.last_handshake, now) {
            1nat
        } else {
            0nat
        }
    }
}

/// Whether a string equals a text.
pub fn string_eq(a: &String, b: &str) -> (r: bool)
    ensures
        r == (a@ == b@),
{
    let s = a.as_str();
    let n = s.unicode_len();
    if n != b.unicode_len() {
        return false;
    }
    let mut i: usize = 0;
    while i < n
        invariant
            n == s@.len(),
            n == b@.len(),
            s@ == a@,
            i <= n,
            forall|j: int| 0 <= j < i ==> s@[j] == b@[j],
        decreases n - i,
    {
        if s.get_char(i) != b.get_char(i) {
            return false;
        }
        i = i + 1;
    }
    assert(s@ =~= b@);
    true
}

} // verus!
