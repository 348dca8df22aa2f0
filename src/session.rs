//! The per-peer WireGuard session as the device drives it, and its implementation
//! over boringtun's `Tunn`.

use vstd::prelude::*;
use crate::addr::IpAddress;
use crate::error::{msg, WgAgentError};
use crate::keys::PrivateKey;
use crate::peer::PeerConfig;

verus! {

/// Scratch space for one datagram, as the session requires.
pub const MAX_PACKET_SIZE: usize = 65535;

/// The longest IP packet a session can encrypt into the scratch space: encryption adds
/// a 32-byte header and tag.
pub const MAX_PLAINTEXT_SIZE: usize = 65503;

/// What one session operation produced.
#[derive(Debug, Clone, PartialEq, Eq)]
pub enum SessionResult {
    /// Nothing to send now.
    Done,
    /// Bytes to send to the peer over UDP.
    WriteToNetwork(Vec<u8>),
    /// A decrypted IPv4 packet for the TUN device, with its inner source address.
    WriteToTunnelV4(Vec<u8>, IpAddress),
    /// A decrypted IPv6 packet for the TUN device, with its inner source address.
    WriteToTunnelV6(Vec<u8>, IpAddress),
    /// The operation failed; failures are counted, never fatal.
    Failed(String),
}

/// One call made on a session, with what it returned.
pub enum SessionCall {
    Encapsulate(Seq<u8>, SessionResult),
    Decapsulate(Option<IpAddress>, Seq<u8>, SessionResult),
    Tick(SessionResult),
}

/// The calls made on a session so far; it exists for proofs only.
pub type SessionLog = Seq<SessionCall>;

/// Key bytes as proofs see them.
pub type KeyBytes = Seq<u8>;

/// One peer's cryptographic context: handshake state, keys, counters, timers.
/// `history` is the log of calls made on it; each operation appends its own.
pub trait Session: Sized {
    spec fn history(&self) -> SessionLog;

    /// Whether a session can be built from these keys and settings under this index.
    spec fn opens(local: KeyBytes, peer: KeyBytes, preshared: Option<[u8; 32]>, keepalive: Option<u16>, index: u32) -> bool;

    /// Builds the session between the local secret and one peer, under a slot index.
    fn open(local: &PrivateKey, peer: &PeerConfig, index: u32) -> (r: Result<Self, WgAgentError>)
        ensures
            (r is Ok) == Self::opens(local@, peer.public_key@, peer.preshared_key, peer.keepalive_interval, index),
            r matches Ok(s) ==> s.history() == Seq::<SessionCall>::empty(),
    ;

    /// Encrypts one IP packet for this peer, possibly starting a handshake.
    fn encapsulate(&mut self, packet: &[u8]) -> (r: SessionResult)
        requires
            packet@.len() <= MAX_PLAINTEXT_SIZE,
        ensures
            final(self).history() == old(self).history().push(SessionCall::Encapsulate(packet@, r)),
    ;

    /// Processes one datagram that came from this peer's endpoint.
    fn decapsulate(&mut self, source: Option<IpAddress>, datagram: &[u8]) -> (r: SessionResult)
        requires
            datagram@.len() <= MAX_PACKET_SIZE,
        ensures
            final(self).history() == old(self).history().push(SessionCall::Decapsulate(source, datagram@, r)),
    ;

    /// Advances the session's timers (rekey, keepalive, handshake retry).
    fn tick(&mut self) -> (r: SessionResult)
        ensures
            final(self).history() == old(self).history().push(SessionCall::Tick(r)),
    ;
}

/// Whether boringtun builds a session from these keys and settings: it refuses key
/// pairs whose shared secret is degenerate, which depends on the arguments alone.
pub uninterp spec fn tunn_opens(local: Seq<u8>, peer: Seq<u8>, preshared: Option<[u8; 32]>, keepalive: Option<u16>, index: u32) -> bool;

#[verifier::external_type_specification]
#[verifier::external_body]
pub struct ExTunn(boringtun::noise::Tunn);

#[verifier::external_type_specification]
#[verifier::external_body]
pub struct ExTunnResult<'a>(boringtun::noise::TunnResult<'a>);

/// Relies on `boringtun::noise::Tunn::new`, which fails with a message; whether it
/// fails is decided by its arguments.
#[verifier::external_body]
fn tunn_new(
    local: &[u8; 32],
    peer: &[u8; 32],
    preshared: Option<[u8; 32]>,
    keepalive: Option<u16>,
    index: u32,
) -> (r: Option<boringtun::noise::Tunn>)
    ensures
        r is Some <==> tunn_opens(local@, peer@, preshared, keepalive, index),
{
    boringtun::noise::Tunn::new(
        boringtun::x25519::StaticSecret::from(*local),
        boringtun::x25519::PublicKey::from(*peer),
        preshared,
        keepalive,
        index,
        None,
    ).ok()
}

/// Relies on `boringtun::noise::Tunn::encapsulate`; the result is copied out. The
/// packet plus the 32 bytes encryption adds must fit the scratch space, else it panics.
#[verifier::external_body]
fn tunn_encapsulate(t: &mut boringtun::noise::Tunn, packet: &[u8]) -> (r: SessionResult)
    requires
        packet@.len() <= MAX_PLAINTEXT_SIZE,
{
    let mut dst = vec![0u8; MAX_PACKET_SIZE];
    owned_result(t.encapsulate(packet, &mut dst))
}

/// Relies on `boringtun::noise::Tunn::decapsulate`; the result is copied out. The
/// datagram must fit the scratch space, else it panics; packets it sends on that were
/// queued by `encapsulate` were bounded there.
#[verifier::external_body]
fn tunn_decapsulate(t: &mut boringtun::noise::Tunn, source: Option<IpAddress>, datagram: &[u8]) -> (r:
    SessionResult)
    requires
        datagram@.len() <= MAX_PACKET_SIZE,
{
    let hint = match source {
        Some(IpAddress::V4(a, b, c, d)) => Some([a, b, c, d].into()),
        Some(IpAddress::V6(a, b, c, d, e, f, g, h)) => Some([a, b, c, d, e, f, g, h].into()),
        None => None,
    };
    let mut dst = vec![0u8; MAX_PACKET_SIZE];
    owned_result(t.decapsulate(hint, datagram, &mut dst))
}

/// Relies on `boringtun::noise::Tunn::update_timers`; the result is copied out.
#[verifier::external_body]
fn tunn_tick(t: &mut boringtun::noise::Tunn) -> (r: SessionResult) {
    let mut dst = vec![0u8; MAX_PACKET_SIZE];
    owned_result(t.update_timers(&mut dst))
}

/// Relies on `boringtun::noise::TunnResult`: copies each variant into an owned value.
#[verifier::external_body]
fn owned_result(r: boringtun::noise::TunnResult) -> (o: SessionResult) {
    match r {
        boringtun::noise::TunnResult::Done => SessionResult::Done,
        boringtun::noise::TunnResult::Err(e) => SessionResult::Failed(format!("{:?}", e)),
        boringtun::noise::TunnResult::WriteToNetwork(b) => SessionResult::WriteToNetwork(b.to_vec()),
        boringtun::noise::TunnResult::WriteToTunnelV4(b, a) => {
            SessionResult::WriteToTunnelV4(b.to_vec(), v4_of(a.octets()))
        },
        boringtun::noise::TunnResult::WriteToTunnelV6(b, a) => {
            SessionResult::WriteToTunnelV6(b.to_vec(), v6_of(a.segments()))
        },
    }
}

/// The address with these four octets.
pub fn v4_of(o: [u8; 4]) -> (r: IpAddress)
    ensures
        r == IpAddress::V4(o@[0], o@[1], o@[2], o@[3]),
{
    IpAddress::V4(o[0], o[1], o[2], o[3])
}

/// The address with these eight groups.
pub fn v6_of(g: [u16; 8]) -> (r: IpAddress)
    ensures
        r == IpAddress::V6(g@[0], g@[1], g@[2], g@[3], g@[4], g@[5], g@[6], g@[7]),
{
    IpAddress::V6(g[0], g[1], g[2], g[3], g[4], g[5], g[6], g[7])
}

/// A WireGuard session run by boringtun.
pub struct BoringSession {
    tunn: boringtun::noise::Tunn,
    log: Ghost<Seq<SessionCall>>,
}

impl Session for BoringSession {
    closed spec fn history(&self) -> SessionLog {
        self.log@
    }

    open spec fn opens(local: KeyBytes, peer: KeyBytes, preshared: Option<[u8; 32]>, keepalive: Option<u16>, index: u32) -> bool {
        tunn_opens(local, peer, preshared, keepalive, index)
    }

    fn open(local: &PrivateKey, peer: &PeerConfig, index: u32) -> (r: Result<BoringSession, WgAgentError>) {
        match tunn_new(local.as_bytes(), peer.public_key.as_bytes(), peer.preshared_key, peer.keepalive_interval, index) {
            Some(tunn) => Ok(BoringSession { tunn, log: Ghost(Seq::empty()) }),
            None => Err(WgAgentError::WireGuard(msg("Failed to create session for peer"))),
        }
    }

    fn encapsulate(&mut self, packet: &[u8]) -> (r: SessionResult) {
        let r = tunn_encapsulate(&mut self.tunn, packet);
        self.log = Ghost(self.log@.push(SessionCall::Encapsulate(packet@, r)));
        r
    }

    fn decapsulate(&mut self, source: Option<IpAddress>, datagram: &[u8]) -> (r: SessionResult) {
        let r = tunn_decapsulate(&mut self.tunn, source, datagram);
        self.log = Ghost(self.log@.push(SessionCall::Decapsulate(source, datagram@, r)));
        r
    }

    fn tick(&mut self) -> (r: SessionResult) {
        let r = tunn_tick(&mut self.tunn);
        self.log = Ghost(self.log@.push(SessionCall::Tick(r)));
        r
    }
}

} // verus!
