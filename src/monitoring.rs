//! Health and metric vocabulary, and per-network statistics for monitoring.

use vstd::prelude::*;
use crate::error::msg;

verus! {

/// Overall health of the agent or of one network.
#[derive(Debug, Clone, Copy, PartialEq, Eq, Structural)]
pub enum HealthStatus {
    Healthy,
    Degraded,
    Unhealthy,
}

impl HealthStatus {
    pub fn to_string(&self) -> (r: String)
        ensures
            r@ == match *self {
                HealthStatus::Healthy => "healthy"@,
                HealthStatus::Degraded => "degraded"@,
                HealthStatus::Unhealthy => "unhealthy"@,
            },
    {
        match self {
            HealthStatus::Healthy => msg("healthy"),
            HealthStatus::Degraded => msg("degraded"),
            HealthStatus::Unhealthy => msg("unhealthy"),
        }
    }
}

/// Connection state of a network as monitoring reports it.
#[derive(Debug, Clone, Copy, PartialEq, Eq, Structural)]
pub enum ConnectionState {
    Disconnected,
    Connecting,
    Connected,
    Degraded,
    Failed,
}

impl ConnectionState {
    pub fn to_string(&self) -> (r: String)
        ensures
            r@ == match *self {
                ConnectionState::Disconnected => "disconnected"@,
                ConnectionState::Connecting => "connecting"@,
                ConnectionState::Connected => "connected"@,
                ConnectionState::Degraded => "degraded"@,
                ConnectionState::Failed => "failed"@,
            },
    {
        match self {
            ConnectionState::Disconnected => msg("disconnected"),
            ConnectionState::Connecting => msg("connecting"),
            ConnectionState::Connected => msg("connected"),
            ConnectionState::Degraded => msg("degraded"),
            ConnectionState::Failed => msg("failed"),
        }
    }
}

/// The metrics the agent exports.
#[derive(Debug, Clone, Copy, PartialEq, Eq, Structural, Hash)]
pub enum MetricType {
    BytesTransmitted,
    BytesReceived,
    ActivePeers,
    HandshakeSuccess,
    HandshakeFailure,
    ConnectionUptime,
    PeerLatency,
    PacketLoss,
}

/// Counters only grow; gauges go up and down.
pub open spec fn is_counter(m: MetricType) -> bool {
    m == MetricType::BytesTransmitted || m == MetricType::BytesReceived || m == MetricType::HandshakeSuccess
        || m == MetricType::HandshakeFailure
}

impl MetricType {
    /// The exported metric name.
    pub fn to_string(&self) -> (r: String)
        ensures
            r@ == match *self {
                MetricType::BytesTransmitted => "harmony_agent_bytes_transmitted_total"@,
                MetricType::BytesReceived => "harmony_agent_bytes_received_total"@,
                MetricType::ActivePeers => "harmony_agent_active_peers"@,
                MetricType::HandshakeSuccess => "harmony_agent_handshake_success_total"@,
                MetricType::HandshakeFailure => "harmony_agent_handshake_failure_total"@,
                MetricType::ConnectionUptime => "harmony_agent_connection_uptime_seconds"@,
                MetricType::PeerLatency => "harmony_agent_peer_latency_milliseconds"@,
                MetricType::PacketLoss => "harmony_agent_packet_loss_rate"@,
            },
    {
        match self {
            MetricType::BytesTransmitted => msg("harmony_agent_bytes_transmitted_total"),
            MetricType::BytesReceived => msg("harmony_agent_bytes_received_total"),
            MetricType::ActivePeers => msg("harmony_agent_active_peers"),
            MetricType::HandshakeSuccess => msg("harmony_agent_handshake_success_total"),
            MetricType::HandshakeFailure => msg("harmony_agent_handshake_failure_total"),
            MetricType::ConnectionUptime => msg("harmony_agent_connection_uptime_seconds"),
            MetricType::PeerLatency => msg("harmony_agent_peer_latency_milliseconds"),
            MetricType::PacketLoss => msg("harmony_agent_packet_loss_rate"),
        }
    }

    /// The metric's help text.
    pub fn help_text(&self) -> (r: &'static str)
        ensures
            r@ == match *self {
                MetricType::BytesTransmitted => "Total bytes transmitted through WireGuard tunnels"@,
                MetricType::BytesReceived => "Total bytes received through WireGuard tunnels"@,
                MetricType::ActivePeers => "Number of active WireGuard peers"@,
                MetricType::HandshakeSuccess => "Total successful handshakes"@,
                MetricType::HandshakeFailure => "Total failed handshakes"@,
                MetricType::ConnectionUptime => "Connection uptime in seconds"@,
                MetricType::PeerLatency => "Peer latency in milliseconds"@,
                MetricType::PacketLoss => "Packet loss rate percentage"@,
            },
    {
        match self {
            MetricType::BytesTransmitted => "Total bytes transmitted through WireGuard tunnels",
            MetricType::BytesReceived => "Total bytes received through WireGuard tunnels",
            MetricType::ActivePeers => "Number of active WireGuard peers",
            MetricType::HandshakeSuccess => "Total successful handshakes",
            MetricType::HandshakeFailure => "Total failed handshakes",
            MetricType::ConnectionUptime => "Connection uptime in seconds",
            MetricType::PeerLatency => "Peer latency in milliseconds",
            MetricType::PacketLoss => "Packet loss rate percentage",
        }
    }

    /// `counter` or `gauge`.
    pub fn metric_kind(&self) -> (r: &'static str)
        ensures
            r@ == (if is_counter(*self) {
                "counter"@
            } else {
                "gauge"@
            }),
    {
        match self {
            MetricType::BytesTransmitted
            | MetricType::BytesReceived
            | MetricType::HandshakeSuccess
            | MetricType::HandshakeFailure => "counter",
            _ => "gauge",
        }
    }
}

/// Statistics of one network. Times are seconds on a monotonic clock.
#[derive(Debug, Clone)]
pub struct NetworkStats {
    pub network: String,
    pub state: ConnectionState,
    pub connected_at: Option<u64>,
    pub tx_bytes: u64,
    pub rx_bytes: u64,
    pub total_peers: usize,
    pub active_peers: usize,
    pub healthy_peers: usize,
    pub handshake_successes: u64,
    pub handshake_failures: u64,
}

/// Every entry named `name` became `f` of itself; the others are unchanged.
pub open spec fn updated(
    o: Seq<NetworkStats>,
    n: Seq<NetworkStats>,
    name: Seq<char>,
    f: spec_fn(NetworkStats) -> NetworkStats,
) -> bool {
    &&& n.len() == o.len()
    &&& forall|i: int| 0 <= i < o.len() ==> #[trigger] n[i] == (if o[i].network@ == name { f(o[i]) } else { o[i] })
}

/// Statistics of every registered network, one entry per name.
pub struct Monitor {
    stats: Vec<NetworkStats>,
}

impl Monitor {
    pub closed spec fn entries(&self) -> Seq<NetworkStats> {
        self.stats@
    }

    /// Names are unique.
    pub open spec fn wf(&self) -> bool {
        forall|i: int, j: int|
            0 <= i < j < self.entries().len() ==> #[trigger] self.entries()[i].network@ != #[trigger] self.entries()[j].network@
    }

    pub fn new() -> (r: Monitor)
        ensures
            r.wf(),
            r.entries().len() == 0,
    {
        Monitor { stats: Vec::new() }
    }

    fn find(&self, network: &str) -> (r: Option<usize>)
        ensures
            match r {
                Some(i) => i < self.entries().len() && self.entries()[i as int].network@ == network@,
                None => forall|i: int| 0 <= i < self.entries().len() ==> self.entries()[i].network@ != network@,
            },
    {
        let mut i: usize = 0;
        while i < self.stats.len()
            invariant
                i <= self.stats@.len(),
                forall|j: int| 0 <= j < i ==> self.stats@[j].network@ != network@,
            decreases self.stats@.len() - i,
        {
            if crate::tunnel::string_eq(&self.stats[i].network, network) {
                return Some(i);
            }
            i = i + 1;
        }
        None
    }

    /// Starts tracking a network with fresh statistics, replacing earlier ones.
    pub fn register_network(&mut self, network: String)
        requires
            old(self).wf(),
        ensures
            final(self).wf(),
            exists|i: int|
                0 <= i < final(self).entries().len() && #[trigger] final(self).entries()[i].network@ == network@
                    && final(self).entries()[i].state == ConnectionState::Disconnected
                    && final(self).entries()[i].tx_bytes == 0 && final(self).entries()[i].rx_bytes == 0,
    {
        let ghost nv = network@;
        match self.find(network.as_str()) {
            Some(i) => {
                let ghost o = self.stats@;
                self.stats.set(i, NetworkStats::new(network));
                assert forall|a: int, b: int| 0 <= a < b < self.entries().len() implies #[trigger] self.entries()[a].network@
                    != #[trigger] self.entries()[b].network@ by {
                    assert(o[a].network@ != o[b].network@);
                }
                assert(self.entries()[i as int].network@ == nv);
            },
            None => {
                let ghost o = self.stats@;
                self.stats.push(NetworkStats::new(network));
                let ghost n = self.stats@.len() - 1;
                assert forall|a: int, b: int| 0 <= a < b < self.entries().len() implies #[trigger] self.entries()[a].network@
                    != #[trigger] self.entries()[b].network@ by {
                    if b < n {
                        assert(o[a].network@ != o[b].network@);
                    } else {
                        assert(o[a].network@ != nv);
                    }
                }
                assert(self.entries()[n].network@ == nv);
            },
        }
    }

    /// Sets a network's connection state; becoming connected records the time.
    pub fn update_state(&mut self, network: &str, state: ConnectionState, now: u64)
        requires
            old(self).wf(),
        ensures
            final(self).wf(),
            updated(
                old(self).entries(),
                final(self).entries(),
                network@,
                |e: NetworkStats|
                    NetworkStats {
                        state,
                        connected_at: if state == ConnectionState::Connected { Some(now) } else { e.connected_at },
                        ..e
                    },
            ),
    {
        match self.find(network) {
            Some(i) => {
                let ghost o = self.stats@;
                let mut e = self.stats[i].copy();
                e.state = state;
                if state == ConnectionState::Connected {
                    e.connected_at = Some(now);
                }
                self.stats.set(i, e);
                proof { self.lemma_updated_one(o, i as int, network@); }
            },
            None => {},
        }
    }

    /// Sets a network's traffic totals.
    pub fn update_traffic(&mut self, network: &str, tx_bytes: u64, rx_bytes: u64)
        requires
            old(self).wf(),
        ensures
            final(self).wf(),
            updated(old(self).entries(), final(self).entries(), network@, |e: NetworkStats| NetworkStats { tx_bytes, rx_bytes, ..e }),
    {
        match self.find(network) {
            Some(i) => {
                let ghost o = self.stats@;
                let mut e = self.stats[i].copy();
                e.tx_bytes = tx_bytes;
                e.rx_bytes = rx_bytes;
                self.stats.set(i, e);
                proof { self.lemma_updated_one(o, i as int, network@); }
            },
            None => {},
        }
    }

    /// Sets a network's peer counts.
    pub fn update_peers(&mut self, network: &str, total: usize, active: usize, healthy: usize)
        requires
            old(self).wf(),
        ensures
            final(self).wf(),
            updated(
                old(self).entries(),
                final(self).entries(),
                network@,
                |e: NetworkStats| NetworkStats { total_peers: total, active_peers: active, healthy_peers: healthy, ..e },
            ),
    {
        match self.find(network) {
            Some(i) => {
                let ghost o = self.stats@;
                let mut e = self.stats[i].copy();
                e.total_peers = total;
                e.active_peers = active;
                e.healthy_peers = healthy;
                self.stats.set(i, e);
                proof { self.lemma_updated_one(o, i as int, network@); }
            },
            None => {},
        }
    }

    /// Counts one handshake, successful or not.
    pub fn record_handshake(&mut self, network: &str, success: bool)
        requires
            old(self).wf(),
        ensures
            final(self).wf(),
            updated(
                old(self).entries(),
                final(self).entries(),
                network@,
                |e: NetworkStats|
                    if success {
                        NetworkStats { handshake_successes: crate::device::sat_add(e.handshake_successes, 1), ..e }
                    } else {
                        NetworkStats { handshake_failures: crate::device::sat_add(e.handshake_failures, 1), ..e }
                    },
            ),
    {
        match self.find(network) {
            Some(i) => {
                let ghost o = self.stats@;
                let mut e = self.stats[i].copy();
                if success {
                    e.handshake_successes = e.handshake_successes.saturating_add(1);
                } else {
                    e.handshake_failures = e.handshake_failures.saturating_add(1);
                }
                self.stats.set(i, e);
                proof { self.lemma_updated_one(o, i as int, network@); }
            },
            None => {},
        }
    }

    proof fn lemma_updated_one(&self, o: Seq<NetworkStats>, i: int, name: Seq<char>)
        requires
            0 <= i < o.len(),
            o[i].network@ == name,
            self.entries().len() == o.len(),
            self.entries()[i].network == o[i].network,
            forall|j: int| 0 <= j < o.len() && j != i ==> self.entries()[j] == o[j],
            forall|a: int, b: int| 0 <= a < b < o.len() ==> #[trigger] o[a].network@ != #[trigger] o[b].network@,
        ensures
            self.wf(),
            forall|j: int| 0 <= j < o.len() && j != i ==> o[j].network@ != name,
    {
        assert forall|j: int| 0 <= j < o.len() && j != i implies o[j].network@ != name by {
            if j < i {
                assert(o[j].network@ != o[i].network@);
            } else {
                assert(o[i].network@ != o[j].network@);
            }
        }
        assert forall|a: int, b: int| 0 <= a < b < self.entries().len() implies #[trigger] self.entries()[a].network@
            != #[trigger] self.entries()[b].network@ by {
            assert(o[a].network@ != o[b].network@);
        }
    }

    /// The statistics of a network, if it is tracked.
    pub fn get_stats(&self, network: &str) -> (r: Option<NetworkStats>)
        ensures
            r is None <==> forall|i: int| 0 <= i < self.entries().len() ==> self.entries()[i].network@ != network@,
            r matches Some(s) ==> exists|i: int|
                0 <= i < self.entries().len() && self.entries()[i].network@ == network@ && #[trigger] self.entries()[i] == s,
    {
        match self.find(network) {
            Some(i) => Some(self.stats[i].copy()),
            None => None,
        }
    }

    /// The statistics of every tracked network.
    pub fn get_all_stats(&self) -> (r: Vec<NetworkStats>)
        ensures
            r@ == self.entries(),
    {
        let mut out: Vec<NetworkStats> = Vec::new();
        let mut i: usize = 0;
        while i < self.stats.len()
            invariant
                i <= self.stats@.len(),
                out@ == self.stats@.subrange(0, i as int),
            decreases self.stats@.len() - i,
        {
            out.push(self.stats[i].copy());
            i = i + 1;
            assert(out@ =~= self.stats@.subrange(0, i as int));
        }
        assert(out@ =~= self.stats@);
        out
    }

    /// Assesses every tracked network.
    pub fn health_check(&self) -> (r: HealthCheck)
        ensures
            r.status == overall_status(self.entries()),
    {
        let all = self.get_all_stats();
        check_health(&all)
    }
}

impl NetworkStats {
    /// An equal copy.
    pub fn copy(&self) -> (r: NetworkStats)
        ensures
            r == *self,
    {
        NetworkStats { network: self.network.clone(), ..*self }
    }

    /// A disconnected network with zero counters.
    pub fn new(network: String) -> (r: NetworkStats)
        ensures
            r.network == network,
            r.state == ConnectionState::Disconnected,
            r.connected_at is None,
            r.tx_bytes == 0 && r.rx_bytes == 0,
            r.total_peers == 0 && r.active_peers == 0 && r.healthy_peers == 0,
            r.handshake_successes == 0 && r.handshake_failures == 0,
    {
        NetworkStats {
            network,
            state: ConnectionState::Disconnected,
            connected_at: None,
            tx_bytes: 0,
            rx_bytes: 0,
            total_peers: 0,
            active_peers: 0,
            healthy_peers: 0,
            handshake_successes: 0,
            handshake_failures: 0,
        }
    }

    /// Seconds since the connection was established, if it was.
    pub fn uptime(&self, now: u64) -> (r: Option<u64>)
        ensures
            match self.connected_at {
                Some(t) => r == Some(if now >= t { (now - t) as u64 } else { 0u64 }),
                None => r is None,
            },
    {
        match self.connected_at {
            Some(t) => Some(if now >= t { now - t } else { 0 }),
            None => None,
        }
    }
}

/// The health of one network from its statistics: the connection state sets a starting
/// level; no healthy peer makes it unhealthy and fewer than half healthy degrades a
/// healthy network; with more than ten handshakes, a success rate under 50% makes it
/// unhealthy and one under 80% degrades a healthy network.
pub open spec fn network_status(s: NetworkStats) -> HealthStatus {
    let from_state = match s.state {
        ConnectionState::Disconnected => HealthStatus::Unhealthy,
        ConnectionState::Failed => HealthStatus::Unhealthy,
        ConnectionState::Degraded => HealthStatus::Degraded,
        ConnectionState::Connecting => HealthStatus::Degraded,
        ConnectionState::Connected => HealthStatus::Healthy,
    };
    let from_peers = if s.total_peers > 0 {
        if s.healthy_peers == 0 {
            HealthStatus::Unhealthy
        } else if 2 * s.healthy_peers < s.total_peers && from_state == HealthStatus::Healthy {
            HealthStatus::Degraded
        } else {
            from_state
        }
    } else {
        from_state
    };
    let hs = s.handshake_successes + s.handshake_failures;
    if hs > 10 {
        if 2 * s.handshake_successes < hs {
            HealthStatus::Unhealthy
        } else if 5 * s.handshake_successes < 4 * hs && from_peers == HealthStatus::Healthy {
            HealthStatus::Degraded
        } else {
            from_peers
        }
    } else {
        from_peers
    }
}

/// `part / whole` as a percentage in tenths, to the nearest tenth (ties to even); 0 when
/// `whole` is 0.
pub open spec fn percent_tenths(part: nat, whole: nat) -> nat {
    if whole == 0 {
        0
    } else {
        let q = part * 1000 / whole;
        let r = part * 1000 % whole;
        if 2 * r > whole || (2 * r == whole && q % 2 == 1) {
            q + 1
        } else {
            q
        }
    }
}

fn percent_tenths_of(part: u64, whole: u128) -> (r: u128)
    requires
        whole <= 0x2_0000_0000_0000_0000,
    ensures
        r == percent_tenths(part as nat, whole as nat),
{
    if whole == 0 {
        return 0;
    }
    let n: u128 = part as u128 * 1000;
    let q = n / whole;
    let rem = n % whole;
    assert(q <= n) by (nonlinear_arith)
        requires
            q == n / whole,
            whole > 0,
    ;
    if 2 * rem > whole || (2 * rem == whole && q % 2 == 1) {
        q + 1
    } else {
        q
    }
}

/// Writes a percentage given in tenths, as "12.3%".
fn push_percent(out: &mut String, tenths: u128) {
    out.append(crate::text::u128_text(tenths / 10).as_str());
    out.append(".");
    out.append(crate::text::u128_text(tenths % 10).as_str());
    out.append("%");
}

/// The health of one network.
#[derive(Debug, Clone)]
pub struct NetworkHealth {
    pub network: String,
    pub status: HealthStatus,
    pub state: ConnectionState,
    /// Healthy peers as a percentage of all peers, in tenths.
    pub peer_health_tenths: u128,
    /// Successful handshakes as a percentage of all handshakes, in tenths.
    pub handshake_rate_tenths: u128,
    pub details: String,
}

fn add_detail(details: &mut String, text: &str) {
    if details.as_str().unicode_len() > 0 {
        details.append(", ");
    }
    details.append(text);
}

/// Assesses one network.
pub fn check_network_health(stats: &NetworkStats) -> (r: NetworkHealth)
    ensures
        r.network == stats.network,
        r.state == stats.state,
        r.status == network_status(*stats),
        r.peer_health_tenths == percent_tenths(stats.healthy_peers as nat, stats.total_peers as nat),
        r.handshake_rate_tenths == percent_tenths(
            stats.handshake_successes as nat,
            (stats.handshake_successes + stats.handshake_failures) as nat,
        ),
        r.status == HealthStatus::Healthy ==> r.details@ == "healthy"@,
{
    let mut status = HealthStatus::Healthy;
    let mut details = String::new();
    match stats.state {
        ConnectionState::Disconnected => {
            status = HealthStatus::Unhealthy;
            add_detail(&mut details, "disconnected");
        },
        ConnectionState::Failed => {
            status = HealthStatus::Unhealthy;
            add_detail(&mut details, "connection failed");
        },
        ConnectionState::Degraded => {
            status = HealthStatus::Degraded;
            add_detail(&mut details, "connection degraded");
        },
        ConnectionState::Connecting => {
            status = HealthStatus::Degraded;
            add_detail(&mut details, "connecting");
        },
        ConnectionState::Connected => {},
    }
    let peer_health = percent_tenths_of(stats.healthy_peers as u64, stats.total_peers as u128);
    if stats.total_peers > 0 {
        if stats.healthy_peers == 0 {
            status = HealthStatus::Unhealthy;
            add_detail(&mut details, "no healthy peers");
        } else if (stats.healthy_peers as u128) * 2 < stats.total_peers as u128 && status == HealthStatus::Healthy {
            status = HealthStatus::Degraded;
            let mut d = msg("low peer health: ");
            push_percent(&mut d, peer_health);
            add_detail(&mut details, d.as_str());
        }
    }
    let hs: u128 = stats.handshake_successes as u128 + stats.handshake_failures as u128;
    let rate = percent_tenths_of(stats.handshake_successes, hs);
    if hs > 10 {
        if (stats.handshake_successes as u128) * 2 < hs {
            status = HealthStatus::Unhealthy;
            let mut d = msg("low handshake rate: ");
            push_percent(&mut d, rate);
            add_detail(&mut details, d.as_str());
        } else if (stats.handshake_successes as u128) * 5 < hs * 4 && status == HealthStatus::Healthy {
            status = HealthStatus::Degraded;
            let mut d = msg("handshake rate: ");
            push_percent(&mut d, rate);
            add_detail(&mut details, d.as_str());
        }
    }
    let details = if status == HealthStatus::Healthy {
        msg("healthy")
    } else {
        details
    };
    NetworkHealth {
        network: stats.network.clone(),
        status,
        state: stats.state,
        peer_health_tenths: peer_health,
        handshake_rate_tenths: rate,
        details,
    }
}

/// The worse of two health levels.
pub open spec fn worse(a: HealthStatus, b: HealthStatus) -> HealthStatus {
    if a == HealthStatus::Unhealthy || b == HealthStatus::Unhealthy {
        HealthStatus::Unhealthy
    } else if a == HealthStatus::Degraded || b == HealthStatus::Degraded {
        HealthStatus::Degraded
    } else {
        HealthStatus::Healthy
    }
}

/// The worst health over networks; healthy when there are none.
pub open spec fn overall_status(s: Seq<NetworkStats>) -> HealthStatus
    decreases s.len(),
{
    if s.len() == 0 {
        HealthStatus::Healthy
    } else {
        worse(overall_status(s.drop_last()), network_status(s.last()))
    }
}

/// The agent's health over its networks.
#[derive(Debug, Clone)]
pub struct HealthCheck {
    pub status: HealthStatus,
    pub networks: Vec<NetworkHealth>,
    pub details: String,
}

impl HealthCheck {
    pub fn new(status: HealthStatus) -> (r: HealthCheck)
        ensures
            r.status == status,
            r.networks@.len() == 0,
            r.details@.len() == 0,
    {
        HealthCheck { status, networks: Vec::new(), details: String::new() }
    }

    pub fn is_healthy(&self) -> (r: bool)
        ensures
            r == (self.status == HealthStatus::Healthy),
    {
        self.status == HealthStatus::Healthy
    }

    pub fn is_degraded(&self) -> (r: bool)
        ensures
            r == (self.status == HealthStatus::Degraded),
    {
        self.status == HealthStatus::Degraded
    }

    pub fn is_unhealthy(&self) -> (r: bool)
        ensures
            r == (self.status == HealthStatus::Unhealthy),
    {
        self.status == HealthStatus::Unhealthy
    }
}

/// Assesses every network: the overall status is the worst one; the details name each
/// network that is not healthy.
pub fn check_health(stats: &Vec<NetworkStats>) -> (r: HealthCheck)
    ensures
        r.status == overall_status(stats@),
        r.networks@.len() == stats@.len(),
        forall|i: int| 0 <= i < stats@.len() ==> (#[trigger] r.networks@[i]).status == network_status(stats@[i]),
        stats@.len() == 0 ==> r.details@ == "No networks registered"@,
{
    let mut overall = HealthStatus::Healthy;
    let mut nets: Vec<NetworkHealth> = Vec::new();
    let mut details = String::new();
    let mut i: usize = 0;
    while i < stats.len()
        invariant
            i <= stats@.len(),
            overall == overall_status(stats@.subrange(0, i as int)),
            nets@.len() == i,
            forall|j: int| 0 <= j < i ==> (#[trigger] nets@[j]).status == network_status(stats@[j]),
        decreases stats@.len() - i,
    {
        let h = check_network_health(&stats[i]);
        assert(stats@.subrange(0, i + 1).drop_last() =~= stats@.subrange(0, i as int));
        overall = match h.status {
            HealthStatus::Unhealthy => HealthStatus::Unhealthy,
            HealthStatus::Degraded => if overall == HealthStatus::Healthy {
                HealthStatus::Degraded
            } else {
                overall
            },
            HealthStatus::Healthy => overall,
        };
        if h.status != HealthStatus::Healthy {
            if details.as_str().unicode_len() > 0 {
                details.append("; ");
            }
            details.append(stats[i].network.as_str());
            details.append(": ");
            details.append(h.details.as_str());
        }
        nets.push(h);
        i = i + 1;
    }
    assert(stats@.subrange(0, stats@.len() as int) =~= stats@);
    let details = if stats.len() == 0 {
        msg("No networks registered")
    } else if details.as_str().unicode_len() == 0 {
        msg("All systems operational")
    } else {
        details
    };
    HealthCheck { status: overall, networks: nets, details }
}

} // verus!
