//! Peer descriptors (the static configuration of one remote peer), their validation,
//! and the activity record the tunnel keeps for each peer.

use vstd::prelude::*;
use crate::addr::{cidr_literal, endpoint_literal, parse_endpoint, Endpoint};
use crate::error::{msg, WgAgentError};
use crate::keys::PublicKey;
use crate::text::{decimal_text, u64_text};
use crate::validation::{keepalive_ok, validate_cidr};

verus! {

/// Seconds within which a handshake counts as recent.
pub const RECENT_HANDSHAKE_SECS: u64 = 180;

/// Traffic and handshake counters of one peer. Times are seconds on a monotonic clock.
#[derive(Debug, Clone, Copy, PartialEq, Eq)]
pub struct PeerStats {
    pub tx_bytes: u64,
    pub rx_bytes: u64,
    pub last_handshake: Option<u64>,
    pub handshake_attempts: u64,
    pub successful_handshakes: u64,
}

pub open spec fn recent(last: Option<u64>, now: u64) -> bool {
    match last {
        Some(t) => t <= now && now - t < RECENT_HANDSHAKE_SECS,
        None => false,
    }
}

pub open spec fn zero_stats() -> PeerStats {
    PeerStats {
        tx_bytes: 0,
        rx_bytes: 0,
        last_handshake: None,
        handshake_attempts: 0,
        successful_handshakes: 0,
    }
}

impl PeerStats {
    /// All counters zero, no handshake yet.
    pub fn new() -> (r: PeerStats)
        ensures
            r == zero_stats(),
    {
        PeerStats {
            tx_bytes: 0,
            rx_bytes: 0,
            last_handshake: None,
            handshake_attempts: 0,
            successful_handshakes: 0,
        }
    }

    /// Whether the last handshake happened less than 180 seconds before `now`.
    pub fn has_recent_handshake(&self, now: u64) -> (r: bool)
        ensures
            r == recent(self.last_handshake, now),
    {
        match self.last_handshake {
            Some(t) => t <= now && now - t < RECENT_HANDSHAKE_SECS,
            None => false,
        }
    }
}

/// The static configuration of one peer.
#[derive(Debug, Clone)]
pub struct PeerConfig {
    /// Operator-visible label.
    pub name: String,
    pub public_key: PublicKey,
    /// Where to send; without one the peer only receives.
    pub endpoint: Option<Endpoint>,
    /// CIDR ranges the peer may use; also the routes installed for it.
    pub allowed_ips: Vec<String>,
    /// Persistent keepalive in seconds; `None` disables it.
    pub keepalive_interval: Option<u16>,
    pub preshared_key: Option<[u8; 32]>,
}

/// The keepalive seconds of a descriptor, 0 when disabled.
pub open spec fn keepalive_secs_of(k: Option<u16>) -> u16 {
    match k {
        Some(s) => s,
        None => 0,
    }
}

/// A descriptor is valid: a name, every allowed range a CIDR, and a keepalive of 0 or
/// 10..=300 seconds.
pub open spec fn peer_config_ok(c: PeerConfig) -> bool {
    &&& c.name@.len() > 0
    &&& forall|i: int| 0 <= i < c.allowed_ips@.len() ==> (#[trigger] cidr_literal(c.allowed_ips@[i]@)) is Some
    &&& keepalive_ok(keepalive_secs_of(c.keepalive_interval))
}

/// Two descriptors say the same thing.
pub open spec fn same_descriptor(a: PeerConfig, b: PeerConfig) -> bool {
    &&& a.name@ == b.name@
    &&& a.public_key == b.public_key
    &&& a.endpoint == b.endpoint
    &&& a.allowed_ips@.len() == b.allowed_ips@.len()
    &&& forall|i: int| 0 <= i < a.allowed_ips@.len() ==> #[trigger] a.allowed_ips@[i]@ == b.allowed_ips@[i]@
    &&& a.keepalive_interval == b.keepalive_interval
    &&& a.preshared_key == b.preshared_key
}

impl PeerConfig {
    /// A descriptor with a name and key only: no endpoint, no ranges, no keepalive.
    pub fn new(name: String, public_key: PublicKey) -> (r: PeerConfig)
        ensures
            r.name@ == name@,
            r.public_key == public_key,
            r.endpoint is None,
            r.allowed_ips@.len() == 0,
            r.keepalive_interval is None,
            r.preshared_key is None,
    {
        PeerConfig {
            name,
            public_key,
            endpoint: None,
            allowed_ips: Vec::new(),
            keepalive_interval: None,
            preshared_key: None,
        }
    }

    /// A copy of this descriptor, field for field.
    pub fn duplicate(&self) -> (r: PeerConfig)
        ensures
            same_descriptor(r, *self),
    {
        let mut ips: Vec<String> = Vec::new();
        let mut i: usize = 0;
        while i < self.allowed_ips.len()
            invariant
                i <= self.allowed_ips@.len(),
                ips@ == self.allowed_ips@.subrange(0, i as int),
            decreases self.allowed_ips@.len() - i,
        {
            ips.push(self.allowed_ips[i].clone());
            i = i + 1;
            assert(ips@ =~= self.allowed_ips@.subrange(0, i as int));
        }
        assert(ips@ =~= self.allowed_ips@);
        PeerConfig {
            name: self.name.clone(),
            public_key: self.public_key,
            endpoint: self.endpoint,
            allowed_ips: ips,
            keepalive_interval: self.keepalive_interval,
            preshared_key: self.preshared_key,
        }
    }

    /// Sets the endpoint from a socket address text; on failure nothing changes.
    pub fn set_endpoint(&mut self, endpoint: &str) -> (r: Result<(), WgAgentError>)
        ensures
            match endpoint_literal(endpoint@) {
                Some(e) => r is Ok && final(self).endpoint == Some(e),
                None => r matches Err(WgAgentError::Config(_)) && final(self).endpoint == old(self).endpoint,
            },
            final(self).name == old(self).name,
            final(self).public_key == old(self).public_key,
            final(self).allowed_ips == old(self).allowed_ips,
            final(self).keepalive_interval == old(self).keepalive_interval,
            final(self).preshared_key == old(self).preshared_key,
    {
        match parse_endpoint(endpoint) {
            Some(e) => {
                self.endpoint = Some(e);
                Ok(())
            },
            None => Err(WgAgentError::Config(msg("Invalid endpoint"))),
        }
    }

    /// Sets the persistent keepalive; 0 disables it.
    pub fn set_keepalive_secs(&mut self, secs: u16)
        ensures
            final(self).keepalive_interval == (if secs > 0 {
                Some(secs)
            } else {
                None
            }),
            final(self).name == old(self).name,
            final(self).public_key == old(self).public_key,
            final(self).endpoint == old(self).endpoint,
            final(self).allowed_ips == old(self).allowed_ips,
            final(self).preshared_key == old(self).preshared_key,
    {
        if secs > 0 {
            self.keepalive_interval = Some(secs);
        } else {
            self.keepalive_interval = None;
        }
    }

    /// Checks one allowed range.
    pub fn validate_allowed_ip(ip: &str) -> (r: Result<(), WgAgentError>)
        ensures
            r is Ok <==> cidr_literal(ip@) is Some,
            r is Err ==> r matches Err(WgAgentError::Config(_)),
    {
        validate_cidr(ip)
    }

    /// Checks the descriptor before it may enter a device.
    pub fn validate(&self) -> (r: Result<(), WgAgentError>)
        ensures
            r is Ok <==> peer_config_ok(*self),
            r is Err ==> r matches Err(WgAgentError::Config(_)),
    {
        if self.name.as_str().is_empty() {
            return Err(WgAgentError::Config(msg("Peer name cannot be empty")));
        }
        let mut i: usize = 0;
        while i < self.allowed_ips.len()
            invariant
                i <= self.allowed_ips@.len(),
                forall|j: int| 0 <= j < i ==> (#[trigger] cidr_literal(self.allowed_ips@[j]@)) is Some,
            decreases self.allowed_ips@.len() - i,
        {
            match PeerConfig::validate_allowed_ip(self.allowed_ips[i].as_str()) {
                Ok(()) => {},
                Err(e) => {
                    return Err(e);
                },
            }
            i = i + 1;
        }
        let secs: u16 = match self.keepalive_interval {
            Some(s) => s,
            None => 0,
        };
        if secs > 0 && secs < 10 {
            return Err(WgAgentError::Config(msg("Keepalive interval is too short")));
        }
        if secs > 300 {
            return Err(WgAgentError::Config(msg("Keepalive interval is too long")));
        }
        Ok(())
    }
}

/// A peer as the tunnel tracks it for status reports.
#[derive(Debug, Clone)]
pub struct Peer {
    pub config: PeerConfig,
    pub stats: PeerStats,
    pub active: bool,
}

impl Peer {
    /// Accepts a valid descriptor; the peer starts inactive with zero counters.
    pub fn new(config: PeerConfig) -> (r: Result<Peer, WgAgentError>)
        ensures
            r is Ok <==> peer_config_ok(config),
            r matches Ok(p) ==> p.config.name@ == config.name@ && p.config.public_key
                == config.public_key && p.config.endpoint == config.endpoint && p.stats
                == zero_stats() && !p.active,
            r is Err ==> r matches Err(WgAgentError::Config(_)),
    {
        match config.validate() {
            Ok(()) => Ok(Peer { config, stats: PeerStats::new(), active: false }),
            Err(e) => Err(e),
        }
    }

    pub fn activate(&mut self)
        ensures
            final(self).active,
            final(self).config == old(self).config,
            final(self).stats == old(self).stats,
    {
        self.active = true;
    }

    pub fn deactivate(&mut self)
        ensures
            !final(self).active,
            final(self).config == old(self).config,
            final(self).stats == old(self).stats,
    {
        self.active = false;
    }

    /// Replaces the traffic totals.
    pub fn update_stats(&mut self, tx_bytes: u64, rx_bytes: u64)
        ensures
            final(self).stats == (PeerStats { tx_bytes, rx_bytes, ..old(self).stats }),
            final(self).config == old(self).config,
            final(self).active == old(self).active,
    {
        self.stats.tx_bytes = tx_bytes;
        self.stats.rx_bytes = rx_bytes;
    }

    pub fn record_handshake_attempt(&mut self)
        requires
            old(self).stats.handshake_attempts < u64::MAX,
        ensures
            final(self).stats == (PeerStats {
                handshake_attempts: (old(self).stats.handshake_attempts + 1) as u64,
                ..old(self).stats
            }),
            final(self).config == old(self).config,
            final(self).active == old(self).active,
    {
        self.stats.handshake_attempts = self.stats.handshake_attempts + 1;
    }

    /// Counts a successful handshake that happened at `now`.
    pub fn record_successful_handshake(&mut self, now: u64)
        requires
            old(self).stats.successful_handshakes < u64::MAX,
        ensures
            final(self).stats == (PeerStats {
                successful_handshakes: (old(self).stats.successful_handshakes + 1) as u64,
                last_handshake: Some(now),
                ..old(self).stats
            }),
            final(self).config == old(self).config,
            final(self).active == old(self).active,
    {
        self.stats.successful_handshakes = self.stats.successful_handshakes + 1;
        self.stats.last_handshake = Some(now);
    }

    /// Active, with a handshake in the last 180 seconds.
    pub fn is_healthy(&self, now: u64) -> (r: bool)
        ensures
            r == (self.active && recent(self.stats.last_handshake, now)),
    {
        self.active && self.stats.has_recent_handshake(now)
    }

    /// A one-line human-readable status.
    pub fn status(&self, now: u64) -> (r: String)
        ensures
            !self.active ==> r@ == "inactive"@,
            self.active && !recent(self.stats.last_handshake, now) ==> r@
                == "active (no recent handshake)"@,
            self.active && recent(self.stats.last_handshake, now) ==> r@ == "active (tx: "@
                + bytes_text(self.stats.tx_bytes as nat) + ", rx: "@ + bytes_text(
                self.stats.rx_bytes as nat,
            ) + ", handshakes: "@ + decimal_text(self.stats.successful_handshakes as nat) + "/"@
                + decimal_text(self.stats.handshake_attempts as nat) + ")"@,
    {
        if !self.active {
            return msg("inactive");
        }
        if !self.stats.has_recent_handshake(now) {
            return msg("active (no recent handshake)");
        }
        let mut s = msg("active (tx: ");
        s.append(format_bytes(self.stats.tx_bytes).as_str());
        s.append(", rx: ");
        s.append(format_bytes(self.stats.rx_bytes).as_str());
        s.append(", handshakes: ");
        s.append(u64_text(self.stats.successful_handshakes).as_str());
        s.append("/");
        s.append(u64_text(self.stats.handshake_attempts).as_str());
        s.append(")");
        s
    }
}

pub open spec fn pow1024(k: nat) -> nat
    decreases k,
{
    if k == 0 {
        1
    } else {
        1024 * pow1024((k - 1) as nat)
    }
}

/// The unit a byte count is shown in: the largest of B, KB, MB, GB, TB that it reaches.
pub open spec fn unit_index(b: nat) -> nat {
    if b < pow1024(1) {
        0
    } else if b < pow1024(2) {
        1
    } else if b < pow1024(3) {
        2
    } else if b < pow1024(4) {
        3
    } else {
        4
    }
}

pub open spec fn unit_name(k: nat) -> Seq<char> {
    if k == 0 {
        "B"@
    } else if k == 1 {
        "KB"@
    } else if k == 2 {
        "MB"@
    } else if k == 3 {
        "GB"@
    } else {
        "TB"@
    }
}

/// `n / d` rounded to the nearest integer, ties to even.
pub open spec fn round_div(n: nat, d: nat) -> nat
    recommends
        d > 0,
{
    let q = n / d;
    let r = n % d;
    if 2 * r > d || (2 * r == d && q % 2 == 1) {
        q + 1
    } else {
        q
    }
}

pub open spec fn two_digits(n: nat) -> Seq<char> {
    if n < 10 {
        "0"@ + decimal_text(n)
    } else {
        decimal_text(n)
    }
}

/// A byte count in human-readable form: whole bytes, or the value in the largest unit
/// it reaches with two decimals.
pub open spec fn bytes_text(b: nat) -> Seq<char> {
    let k = unit_index(b);
    if k == 0 {
        decimal_text(b) + " B"@
    } else {
        let h = round_div(b * 100, pow1024(k));
        decimal_text(h / 100) + "."@ + two_digits(h % 100) + " "@ + unit_name(k)
    }
}

/// Writes a byte count in human-readable form ("512 B", "1.50 KB").
pub fn format_bytes(bytes: u64) -> (r: String)
    ensures
        r@ == bytes_text(bytes as nat),
{
    assert(pow1024(1) == 1024 && pow1024(2) == 1048576 && pow1024(3) == 1073741824 && pow1024(4)
        == 1099511627776) by {
        assert(pow1024(0) == 1);
    }
    if bytes < 1024 {
        let mut s = u64_text(bytes);
        s.append(" B");
        return s;
    }
    let (div, unit): (u128, &str) = if bytes < 1048576 {
        (1024, "KB")
    } else if bytes < 1073741824 {
        (1048576, "MB")
    } else if bytes < 1099511627776 {
        (1073741824, "GB")
    } else {
        (1099511627776, "TB")
    };
    assert(unit@ == unit_name(unit_index(bytes as nat)));
    assert(div as nat == pow1024(unit_index(bytes as nat)));
    let n: u128 = bytes as u128 * 100;
    let q = n / div;
    let rem = n % div;
    let h: u128 = if 2 * rem > div || (2 * rem == div && q % 2 == 1) {
        q + 1
    } else {
        q
    };
    assert(h as nat == round_div(bytes as nat * 100, div as nat));
    let whole = h / 100;
    let frac = h % 100;
    assert(q * div <= n) by (nonlinear_arith)
        requires
            q == n / div,
            div > 0,
    ;
    assert(q * 1024 <= n) by (nonlinear_arith)
        requires
            q * div <= n,
            div >= 1024,
    ;
    assert(q < 0x8000_0000_0000_0000);
    assert(whole <= h);
    let mut s = u64_text(whole as u64);
    s.append(".");
    if frac < 10 {
        s.append("0");
    }
    s.append(u64_text(frac as u64).as_str());
    s.append(" ");
    s.append(unit);
    s
}

} // verus!
