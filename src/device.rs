//! The per-network device state: the peer table keyed by public key, the reverse
//! index by endpoint, the traffic counters, and the decisions of the outbound,
//! inbound, timer and command paths. The TUN and UDP handles and the tasks that move
//! bytes live with the caller, which hands each event to these functions.

use vstd::prelude::*;
use crate::addr::{cidr_literal, Endpoint, IpAddress};
use crate::error::{msg, WgAgentError};
use crate::keys::{KeyPair, PrivateKey, PublicKey};
use crate::peer::{peer_config_ok, same_descriptor, PeerConfig};
use crate::session::{Session, SessionCall, SessionResult, MAX_PACKET_SIZE, MAX_PLAINTEXT_SIZE};

verus! {

/// Counters of one device; they only ever grow.
#[derive(Debug, Clone, Copy, PartialEq, Eq)]
pub struct DeviceStats {
    pub tx_bytes: u64,
    pub rx_bytes: u64,
    pub tx_packets: u64,
    pub rx_packets: u64,
    pub errors: u64,
}

/// Every counter of `a` is at most the same counter of `b`.
pub open spec fn stats_le(a: DeviceStats, b: DeviceStats) -> bool {
    &&& a.tx_bytes <= b.tx_bytes
    &&& a.rx_bytes <= b.rx_bytes
    &&& a.tx_packets <= b.tx_packets
    &&& a.rx_packets <= b.rx_packets
    &&& a.errors <= b.errors
}

pub open spec fn sat_add(a: u64, b: u64) -> u64 {
    if a + b > u64::MAX {
        u64::MAX
    } else {
        (a + b) as u64
    }
}

/// Readings taken later are componentwise no smaller: the order is transitive.
pub proof fn lemma_stats_monotone(a: DeviceStats, b: DeviceStats, c: DeviceStats)
    requires
        stats_le(a, b),
        stats_le(b, c),
    ensures
        stats_le(a, c),
{
}

/// Counters only grow: over any run of readings in which each reading is no smaller
/// than the one before, every later reading is no smaller than every earlier one.
pub proof fn lemma_counters_never_decrease(readings: Seq<DeviceStats>)
    requires
        forall|i: int| 0 <= i < readings.len() - 1 ==> stats_le(#[trigger] readings[i], readings[i + 1]),
    ensures
        forall|i: int, j: int| 0 <= i <= j < readings.len() ==> stats_le(#[trigger] readings[i], #[trigger] readings[j]),
    decreases readings.len(),
{
    if readings.len() > 0 {
        let q = readings.drop_last();
        assert forall|i: int| 0 <= i < q.len() - 1 implies stats_le(#[trigger] q[i], q[i + 1]) by {
            assert(q[i] == readings[i] && q[i + 1] == readings[i + 1]);
        }
        lemma_counters_never_decrease(q);
        assert forall|i: int, j: int| 0 <= i <= j < readings.len() implies stats_le(#[trigger] readings[i], #[trigger] readings[j]) by {
            if j < readings.len() - 1 {
                assert(q[i] == readings[i] && q[j] == readings[j]);
            } else if i < j {
                assert(q[i] == readings[i] && q[j - 1] == readings[j - 1]);
                assert(stats_le(readings[i], readings[j - 1]));
                assert(stats_le(readings[j - 1], readings[j]));
            }
        }
    }
}

impl DeviceStats {
    pub open spec fn spec_zero() -> DeviceStats {
        DeviceStats { tx_bytes: 0, rx_bytes: 0, tx_packets: 0, rx_packets: 0, errors: 0 }
    }

    pub fn new() -> (r: DeviceStats)
        ensures
            r == DeviceStats::spec_zero(),
    {
        DeviceStats { tx_bytes: 0, rx_bytes: 0, tx_packets: 0, rx_packets: 0, errors: 0 }
    }

    /// Counts one datagram of `bytes` bytes sent.
    pub fn record_tx(&mut self, bytes: u64)
        ensures
            *final(self) == (DeviceStats {
                tx_bytes: sat_add(old(self).tx_bytes, bytes),
                tx_packets: sat_add(old(self).tx_packets, 1),
                ..*old(self)
            }),
            stats_le(*old(self), *final(self)),
    {
        self.tx_bytes = self.tx_bytes.saturating_add(bytes);
        self.tx_packets = self.tx_packets.saturating_add(1);
    }

    /// Counts bytes sent without counting a packet (timer traffic).
    pub fn record_tx_bytes(&mut self, bytes: u64)
        ensures
            *final(self) == (DeviceStats { tx_bytes: sat_add(old(self).tx_bytes, bytes), ..*old(self) }),
            stats_le(*old(self), *final(self)),
    {
        self.tx_bytes = self.tx_bytes.saturating_add(bytes);
    }

    /// Counts one packet of `bytes` bytes written to the TUN device.
    pub fn record_rx(&mut self, bytes: u64)
        ensures
            *final(self) == (DeviceStats {
                rx_bytes: sat_add(old(self).rx_bytes, bytes),
                rx_packets: sat_add(old(self).rx_packets, 1),
                ..*old(self)
            }),
            stats_le(*old(self), *final(self)),
    {
        self.rx_bytes = self.rx_bytes.saturating_add(bytes);
        self.rx_packets = self.rx_packets.saturating_add(1);
    }

    /// Counts `n` failures.
    pub fn record_errors(&mut self, n: u64)
        ensures
            *final(self) == (DeviceStats { errors: sat_add(old(self).errors, n), ..*old(self) }),
            stats_le(*old(self), *final(self)),
    {
        self.errors = self.errors.saturating_add(n);
    }
}

/// One peer inside a running device.
pub struct PeerSlot<S> {
    pub descriptor: PeerConfig,
    pub session: S,
    /// Set from the descriptor; never reassigned.
    pub current_endpoint: Option<Endpoint>,
    /// Monotonic time of the last successful send or receive.
    pub last_activity: u64,
    /// Unique within the device; the session's index.
    pub index: u32,
}

pub open spec fn call_result(c: SessionCall) -> SessionResult {
    match c {
        SessionCall::Encapsulate(_, r) => r,
        SessionCall::Decapsulate(_, _, r) => r,
        SessionCall::Tick(r) => r,
    }
}

/// What the session of this slot returned last.
pub open spec fn last_result<S: Session>(slot: PeerSlot<S>) -> SessionResult {
    call_result(slot.session.history().last())
}

/// `new` is `old` after one more session call `c`, nothing else changed.
pub open spec fn traced<S: Session>(old: PeerSlot<S>, new: PeerSlot<S>, c: SessionCall) -> bool {
    &&& new.session.history() == old.session.history().push(c)
    &&& new.descriptor == old.descriptor
    &&& new.index == old.index
    &&& new.current_endpoint == old.current_endpoint
    &&& new.last_activity == old.last_activity
}

/// A result that makes a datagram to send, for a peer with an endpoint.
pub open spec fn sendable(r: SessionResult, ep: Option<Endpoint>) -> bool {
    r is WriteToNetwork && ep is Some
}

/// How many of the slots' last results are failures.
pub open spec fn count_failed<S: Session>(s: Seq<PeerSlot<S>>) -> nat
    decreases s.len(),
{
    if s.len() == 0 {
        0
    } else {
        count_failed(s.drop_last()) + if last_result(s.last()) is Failed {
            1nat
        } else {
            0nat
        }
    }
}

/// The datagrams that the slots' last results make, in slot order.
pub open spec fn sends_of<S: Session>(s: Seq<PeerSlot<S>>) -> Seq<Transmit>
    decreases s.len(),
{
    if s.len() == 0 {
        Seq::empty()
    } else {
        let rest = sends_of(s.drop_last());
        match (last_result(s.last()), s.last().current_endpoint) {
            (SessionResult::WriteToNetwork(b), Some(ep)) => rest.push(
                Transmit { slot: (s.len() - 1) as usize, endpoint: ep, bytes: b },
            ),
            _ => rest,
        }
    }
}

/// How many slots an outbound packet was offered to: up to and including the winner,
/// else all of them.
pub open spec fn tried<S: Session>(ns: Seq<PeerSlot<S>>, r: Option<Transmit>) -> int {
    match r {
        Some(t) => t.slot + 1,
        None => ns.len() as int,
    }
}

/// The outbound decision: a packet too long for a session runs none; otherwise each
/// slot in insertion order had its session run on the packet, up to the first whose
/// result is bytes to send and which has an endpoint; that slot wins with those bytes,
/// and the slots after it are untouched.
pub open spec fn outbound_result<S: Session>(os: Seq<PeerSlot<S>>, ns: Seq<PeerSlot<S>>, packet: Seq<u8>, r: Option<Transmit>) -> bool {
    if packet.len() > MAX_PLAINTEXT_SIZE {
        r is None && ns == os
    } else {
        let n = os.len();
        let m = tried(ns, r);
        &&& ns.len() == n
        &&& m <= n
        &&& forall|j: int| 0 <= j < m ==> traced(os[j], #[trigger] ns[j], SessionCall::Encapsulate(packet, last_result(ns[j])))
        &&& forall|j: int| m <= j < n ==> #[trigger] ns[j] == os[j]
        &&& forall|j: int| 0 <= j < m && (r is None || j < m - 1) ==> !sendable(last_result(#[trigger] ns[j]), os[j].current_endpoint)
        &&& r matches Some(t) ==> last_result(ns[t.slot as int]) == SessionResult::WriteToNetwork(t.bytes)
            && os[t.slot as int].current_endpoint == Some(t.endpoint)
    }
}

/// How many of the sessions that an outbound packet ran failed.
pub open spec fn outbound_failures<S: Session>(ns: Seq<PeerSlot<S>>, packet: Seq<u8>, r: Option<Transmit>) -> nat {
    if packet.len() > MAX_PLAINTEXT_SIZE {
        0
    } else {
        count_failed(ns.subrange(0, tried(ns, r)))
    }
}

/// The inbound decision: an unknown sender runs no session; a datagram too long for a
/// session is a failure and runs none; otherwise only the sender's slot changes: its own
/// session decapsulated the datagram with the sender's address as hint, the action is
/// what that result calls for, and a quiet result refreshes its activity time.
pub open spec fn inbound_result<S: Session>(
    os: Seq<PeerSlot<S>>,
    ns: Seq<PeerSlot<S>>,
    entries: Seq<(Endpoint, PublicKey)>,
    source: Endpoint,
    datagram: Seq<u8>,
    now: u64,
    r: Inbound,
) -> bool {
    &&& (r is Unknown) <==> forall|k: int| 0 <= k < entries.len() ==> entries[k].0 != source
    &&& r is Unknown ==> ns == os
    &&& !(r is Unknown) && datagram.len() > MAX_PACKET_SIZE ==> r is Failed && ns == os
    &&& !(r is Unknown) && datagram.len() <= MAX_PACKET_SIZE ==> exists|i: int|
        0 <= i < os.len() && os[i].current_endpoint == Some(source)
            && (forall|j: int| 0 <= j < os.len() && j != i ==> #[trigger] ns[j] == os[j])
            && ns[i].session.history() == os[i].session.history().push(
                SessionCall::Decapsulate(Some(source.ip), datagram, last_result(ns[i])),
            )
            && r == spec_inbound_of(last_result(ns[i]))
            && ns[i].last_activity == (if r is Quiet { now } else { os[i].last_activity })
}

/// Every slot had its timers advanced once, nothing else changed.
pub open spec fn ticked<S: Session>(os: Seq<PeerSlot<S>>, ns: Seq<PeerSlot<S>>) -> bool {
    &&& ns.len() == os.len()
    &&& forall|j: int| 0 <= j < os.len() ==> traced(os[j], #[trigger] ns[j], SessionCall::Tick(last_result(ns[j])))
}

/// What the caller does with the result of decapsulating a datagram.
pub open spec fn spec_inbound_of(r: SessionResult) -> Inbound {
    match r {
        SessionResult::WriteToNetwork(b) => Inbound::Reply(b),
        SessionResult::WriteToTunnelV4(b, _) => Inbound::Deliver(b),
        SessionResult::WriteToTunnelV6(b, _) => Inbound::Deliver(b),
        SessionResult::Done => Inbound::Quiet,
        SessionResult::Failed(_) => Inbound::Failed,
    }
}

/// Turns a decapsulation result into the action for the caller: handshake bytes go
/// back to the sender, decrypted packets to the TUN device.
pub fn inbound_of(r: SessionResult) -> (a: Inbound)
    ensures
        a == spec_inbound_of(r),
{
    match r {
        SessionResult::WriteToNetwork(b) => Inbound::Reply(b),
        SessionResult::WriteToTunnelV4(b, _) => Inbound::Deliver(b),
        SessionResult::WriteToTunnelV6(b, _) => Inbound::Deliver(b),
        SessionResult::Done => Inbound::Quiet,
        SessionResult::Failed(_) => Inbound::Failed,
    }
}

/// The peers of one device, keyed by public key, with the reverse index from
/// endpoint to key.
pub struct PeerTable<S> {
    slots: Vec<PeerSlot<S>>,
    endpoint_index: Vec<(Endpoint, PublicKey)>,
    next_index: u32,
}

/// What the caller does with an inbound datagram.
#[derive(Debug, Clone, PartialEq, Eq)]
pub enum Inbound {
    /// The sender is no known endpoint; the datagram is dropped and no session runs.
    Unknown,
    /// Send these bytes back to the sender (handshake traffic).
    Reply(Vec<u8>),
    /// Write this decrypted packet to the TUN device.
    Deliver(Vec<u8>),
    /// Nothing to do; the peer's activity time was refreshed.
    Quiet,
    /// The session failed; count one error.
    Failed,
}

/// A datagram to send to a peer.
#[derive(Debug, Clone, PartialEq, Eq)]
pub struct Transmit {
    /// Position of the peer in the table.
    pub slot: usize,
    pub endpoint: Endpoint,
    pub bytes: Vec<u8>,
}

/// The key of the slot at `i`.
pub open spec fn key_at<S>(s: Seq<PeerSlot<S>>, i: int) -> Seq<u8> {
    s[i].descriptor.public_key@
}

/// The slot at `i` holds key `k` and sits at endpoint `e`.
pub open spec fn slot_at<S>(s: Seq<PeerSlot<S>>, i: int, k: Seq<u8>, e: Endpoint) -> bool {
    0 <= i < s.len() && key_at(s, i) == k && s[i].current_endpoint == Some(e)
}

/// Some slot holds key `k`.
pub open spec fn holds_key<S>(s: Seq<PeerSlot<S>>, k: Seq<u8>) -> bool {
    exists|i: int| 0 <= i < s.len() && #[trigger] key_at(s, i) == k
}

/// Keys and indexes are unique, every index is below `next`, and each slot sits at its
/// descriptor's endpoint.
pub open spec fn slots_ok<S>(s: Seq<PeerSlot<S>>, next: u32) -> bool {
    &&& forall|i: int, j: int| 0 <= i < j < s.len() ==> key_at(s, i) != key_at(s, j)
    &&& forall|i: int, j: int| 0 <= i < j < s.len() ==> #[trigger] s[i].index != #[trigger] s[j].index
    &&& forall|i: int| 0 <= i < s.len() ==> #[trigger] s[i].index < next
    &&& forall|i: int| 0 <= i < s.len() ==> #[trigger] s[i].current_endpoint == s[i].descriptor.endpoint
}

/// The entry names a present peer that sits at the entry's endpoint.
pub open spec fn entry_backed<S>(s: Seq<PeerSlot<S>>, entry: (Endpoint, PublicKey)) -> bool {
    exists|i: int| #[trigger] slot_at(s, i, entry.1@, entry.0)
}

/// Every entry of `ne` is an entry of `oe`, and none is for `ep`.
pub open spec fn entries_after_drop(oe: Seq<(Endpoint, PublicKey)>, ne: Seq<(Endpoint, PublicKey)>, ep: Option<Endpoint>) -> bool {
    &&& forall|k: int| 0 <= k < ne.len() ==> ep != Some(#[trigger] ne[k].0)
    &&& forall|k: int| 0 <= k < ne.len() ==> #[trigger] oe.contains(ne[k])
}

/// No endpoint appears twice in the index.
pub open spec fn entries_unique(e: Seq<(Endpoint, PublicKey)>) -> bool {
    forall|k: int, l: int| 0 <= k < l < e.len() ==> #[trigger] e[k].0 != #[trigger] e[l].0
}

/// Every endpoint entry is backed by a slot, and endpoints are unique in the index.
pub open spec fn entries_ok<S>(s: Seq<PeerSlot<S>>, e: Seq<(Endpoint, PublicKey)>) -> bool {
    &&& forall|k: int| 0 <= k < e.len() ==> #[trigger] entry_backed(s, e[k])
    &&& entries_unique(e)
}

/// Same descriptors, indexes and endpoints at the same positions; only sessions and
/// activity times may differ.
pub open spec fn same_shape<S>(a: Seq<PeerSlot<S>>, b: Seq<PeerSlot<S>>) -> bool {
    &&& a.len() == b.len()
    &&& forall|j: int|
        0 <= j < a.len() ==> {
            &&& #[trigger] a[j].descriptor == b[j].descriptor
            &&& a[j].index == b[j].index
            &&& a[j].current_endpoint == b[j].current_endpoint
        }
}

proof fn lemma_same_shape_ok<S>(a: Seq<PeerSlot<S>>, b: Seq<PeerSlot<S>>, next: u32, e: Seq<(Endpoint, PublicKey)>)
    requires
        slots_ok(b, next),
        entries_ok(b, e),
        same_shape(a, b),
    ensures
        slots_ok(a, next),
        entries_ok(a, e),
{
    assert forall|i: int, j: int| 0 <= i < j < a.len() implies key_at(a, i) != key_at(a, j) by {
        assert(a[i].descriptor == b[i].descriptor);
        assert(a[j].descriptor == b[j].descriptor);
        assert(key_at(b, i) != key_at(b, j));
    }
    assert forall|i: int, j: int| 0 <= i < j < a.len() implies #[trigger] a[i].index != #[trigger] a[j].index by {
        assert(a[i].descriptor == b[i].descriptor);
        assert(a[j].descriptor == b[j].descriptor);
    }
    assert forall|i: int| 0 <= i < a.len() implies #[trigger] a[i].index < next by {
        assert(a[i].descriptor == b[i].descriptor);
    }
    assert forall|i: int| 0 <= i < a.len() implies #[trigger] a[i].current_endpoint == a[i].descriptor.endpoint by {
        assert(a[i].descriptor == b[i].descriptor);
    }
    assert forall|k: int| 0 <= k < e.len() implies #[trigger] entry_backed(a, e[k]) by {
        assert(entry_backed(b, e[k]));
        let j = choose|j: int| slot_at(b, j, e[k].1@, e[k].0);
        assert(a[j].descriptor == b[j].descriptor);
        assert(slot_at(a, j, e[k].1@, e[k].0));
    }
}

impl<S> PeerTable<S> {
    pub closed spec fn slots(&self) -> Seq<PeerSlot<S>> {
        self.slots@
    }

    pub closed spec fn endpoints(&self) -> Seq<(Endpoint, PublicKey)> {
        self.endpoint_index@
    }

    pub closed spec fn next(&self) -> u32 {
        self.next_index
    }

    pub open spec fn key(&self, i: int) -> Seq<u8> {
        key_at(self.slots(), i)
    }

    pub open spec fn has_key(&self, k: Seq<u8>) -> bool {
        holds_key(self.slots(), k)
    }

    /// The table's invariant: unique keys and indexes, and a reverse index whose every
    /// entry names a present peer at that endpoint.
    pub open spec fn wf(&self) -> bool {
        &&& slots_ok(self.slots(), self.next())
        &&& entries_ok(self.slots(), self.endpoints())
    }

    /// The table with no peers.
    pub fn new() -> (r: PeerTable<S>)
        ensures
            r.wf(),
            r.slots().len() == 0,
            r.endpoints().len() == 0,
            r.next() == 0,
    {
        PeerTable { slots: Vec::new(), endpoint_index: Vec::new(), next_index: 0 }
    }

    pub fn len(&self) -> (r: usize)
        ensures
            r == self.slots().len(),
    {
        self.slots.len()
    }

    /// The index the next added peer receives.
    pub fn next_index(&self) -> (r: u32)
        ensures
            r == self.next(),
    {
        self.next_index
    }

    /// Borrows the slot at a position.
    pub fn slot(&self, i: usize) -> (r: &PeerSlot<S>)
        requires
            i < self.slots().len(),
        ensures
            *r == self.slots()[i as int],
    {
        &self.slots[i]
    }

    /// Position of the slot holding a key.
    pub fn find_key(&self, pk: &PublicKey) -> (r: Option<usize>)
        ensures
            match r {
                Some(i) => i < self.slots().len() && self.key(i as int) == pk@,
                None => !self.has_key(pk@),
            },
    {
        let mut i: usize = 0;
        while i < self.slots.len()
            invariant
                i <= self.slots@.len(),
                forall|j: int| 0 <= j < i ==> key_at(self.slots@, j) != pk@,
            decreases self.slots@.len() - i,
        {
            if self.slots[i].descriptor.public_key == *pk {
                return Some(i);
            }
            i = i + 1;
        }
        None
    }

    /// Position of an endpoint in the reverse index.
    fn find_endpoint_entry(&self, ep: &Endpoint) -> (r: Option<usize>)
        ensures
            match r {
                Some(k) => k < self.endpoints().len() && self.endpoints()[k as int].0 == *ep,
                None => forall|k: int|
                    0 <= k < self.endpoints().len() ==> self.endpoints()[k].0 != *ep,
            },
    {
        let mut k: usize = 0;
        while k < self.endpoint_index.len()
            invariant
                k <= self.endpoint_index@.len(),
                forall|j: int| 0 <= j < k ==> self.endpoint_index@[j].0 != *ep,
            decreases self.endpoint_index@.len() - k,
        {
            if self.endpoint_index[k].0 == *ep {
                return Some(k);
            }
            k = k + 1;
        }
        None
    }

    /// The slot of the peer at an endpoint, by the reverse index.
    pub fn lookup_endpoint(&self, ep: &Endpoint) -> (r: Option<usize>)
        requires
            self.wf(),
        ensures
            match r {
                Some(i) => i < self.slots().len() && self.slots()[i as int].current_endpoint
                    == Some(*ep) && exists|k: int|
                    0 <= k < self.endpoints().len() && self.endpoints()[k].0 == *ep
                        && self.endpoints()[k].1@ == self.key(i as int),
                None => forall|k: int|
                    0 <= k < self.endpoints().len() ==> self.endpoints()[k].0 != *ep,
            },
    {
        match self.find_endpoint_entry(ep) {
            None => None,
            Some(k) => {
                let pk = self.endpoint_index[k].1;
                let ghost s = self.slots();
                assert(entry_backed(s, self.endpoints()[k as int]));
                match self.find_key(&pk) {
                    Some(i) => {
                        let ghost w = choose|w: int| slot_at(s, w, pk@, *ep);
                        assert(w == i as int) by {
                            if w < i {
                                assert(key_at(s, w) != key_at(s, i as int));
                            } else if w > i {
                                assert(key_at(s, i as int) != key_at(s, w));
                            }
                        }
                        Some(i)
                    },
                    None => {
                        let ghost w = choose|w: int| slot_at(s, w, pk@, *ep);
                        assert(key_at(s, w) == pk@);
                        None
                    },
                }
            },
        }
    }

    /// Refreshes a peer's activity time after a successful send.
    pub fn touch(&mut self, i: usize, now: u64)
        requires
            old(self).wf(),
            i < old(self).slots().len(),
        ensures
            final(self).wf(),
            final(self).endpoints() == old(self).endpoints(),
            final(self).next() == old(self).next(),
            final(self).slots() == old(self).slots().update(
                i as int,
                PeerSlot { last_activity: now, ..old(self).slots()[i as int] },
            ),
    {
        let ghost old_s = self.slots();
        self.slots[i].last_activity = now;
        proof {
            lemma_same_shape_ok(self.slots(), old_s, self.next(), self.endpoints());
        }
    }
}

impl<S> PeerTable<S> {
    /// Removes the reverse-index entry of an endpoint, if there is one, and returns its
    /// position.
    fn drop_endpoint_entry(&mut self, ep: Option<Endpoint>) -> (r: Option<usize>)
        ensures
            final(self).slots() == old(self).slots(),
            final(self).next() == old(self).next(),
            match r {
                Some(k) => k < old(self).endpoints().len() && ep == Some(old(self).endpoints()[k as int].0)
                    && final(self).endpoints() == old(self).endpoints().remove(k as int),
                None => final(self).endpoints() == old(self).endpoints() && forall|k: int|
                    0 <= k < old(self).endpoints().len() ==> ep != Some(#[trigger] old(self).endpoints()[k].0),
            },
    {
        match ep {
            Some(e) => {
                match self.find_endpoint_entry(&e) {
                    Some(k) => {
                        self.endpoint_index.remove(k);
                        Some(k)
                    },
                    None => None,
                }
            },
            None => None,
        }
    }

    /// Removes the peer with a key, and its endpoint from the reverse index; in-flight
    /// packets for it are dropped. Returns whether such a peer was present.
    #[verifier::rlimit(40)]
    pub fn remove_peer(&mut self, pk: &PublicKey) -> (r: bool)
        requires
            old(self).wf(),
        ensures
            final(self).wf(),
            r == old(self).has_key(pk@),
            !final(self).has_key(pk@),
            final(self).next() == old(self).next(),
            !r ==> final(self).slots() == old(self).slots() && final(self).endpoints() == old(self).endpoints(),
            r ==> exists|i: int|
                0 <= i < old(self).slots().len() && old(self).key(i) == pk@ && final(self).slots()
                    == old(self).slots().remove(i) && (final(self).endpoints() == old(self).endpoints()
                    || exists|k: int|
                    0 <= k < old(self).endpoints().len() && old(self).slots()[i].current_endpoint == Some(
                        old(self).endpoints()[k].0,
                    ) && final(self).endpoints() == old(self).endpoints().remove(k)),
            forall|k: Seq<u8>| old(self).has_key(k) && k != pk@ ==> #[trigger] final(self).has_key(k),
    {
        let i = match self.find_key(pk) {
            Some(i) => i,
            None => {
                return false;
            },
        };
        let ghost os = self.slots();
        let ghost oe = self.endpoints();
        let slot = self.slots.remove(i);
        let ghost removed = os[i as int];
        assert(removed == slot);
        let ghost ms = self.slots();
        let dropped = self.drop_endpoint_entry(slot.current_endpoint);
        assert(self.slots() == ms);
        proof {
            let ne = self.endpoints();
            match dropped {
                Some(k) => {
                    assert forall|k2: int| 0 <= k2 < ne.len() implies #[trigger] ne[k2] == oe[if k2 < k { k2 } else { k2 + 1 }] by {}
                    assert forall|k2: int| 0 <= k2 < ne.len() implies removed.current_endpoint != Some(#[trigger] ne[k2].0) by {
                        let o = if k2 < k { k2 } else { k2 + 1 };
                        assert(ne[k2] == oe[o]);
                        if o < k {
                            assert(oe[o].0 != oe[k as int].0);
                        } else {
                            assert(oe[k as int].0 != oe[o].0);
                        }
                    }
                    assert forall|k2: int| 0 <= k2 < ne.len() implies #[trigger] oe.contains(ne[k2]) by {
                        let o = if k2 < k { k2 } else { k2 + 1 };
                        assert(ne[k2] == oe[o]);
                    }
                    assert forall|a: int, b: int| 0 <= a < b < ne.len() implies #[trigger] ne[a].0 != #[trigger] ne[b].0 by {
                        let oa = if a < k { a } else { a + 1 };
                        let ob = if b < k { b } else { b + 1 };
                        assert(ne[a] == oe[oa]);
                        assert(ne[b] == oe[ob]);
                        assert(oe[oa].0 != oe[ob].0);
                    }
                },
                None => {
                    assert forall|k2: int| 0 <= k2 < ne.len() implies #[trigger] oe.contains(ne[k2]) by {
                        assert(oe[k2] == ne[k2]);
                    }
                },
            }
            assert(entries_after_drop(oe, ne, removed.current_endpoint));
        }
        proof {
            lemma_removed_ok(os, oe, self.slots(), self.endpoints(), i as int, self.next());
        }
        true
    }
}

proof fn lemma_removed_ok<S>(
    os: Seq<PeerSlot<S>>,
    oe: Seq<(Endpoint, PublicKey)>,
    ns: Seq<PeerSlot<S>>,
    ne: Seq<(Endpoint, PublicKey)>,
    i: int,
    next: u32,
)
    requires
        slots_ok(os, next),
        entries_ok(os, oe),
        0 <= i < os.len(),
        ns == os.remove(i),
        entries_after_drop(oe, ne, os[i].current_endpoint),
        entries_unique(ne),
    ensures
        slots_ok(ns, next),
        entries_ok(ns, ne),
        !holds_key(ns, key_at(os, i)),
        forall|k: Seq<u8>| holds_key(os, k) && k != key_at(os, i) ==> #[trigger] holds_key(ns, k),
{
    assert forall|k: Seq<u8>| holds_key(os, k) && k != key_at(os, i) implies #[trigger] holds_key(ns, k) by {
        let w = choose|w: int| 0 <= w < os.len() && #[trigger] key_at(os, w) == k;
        assert(w != i);
        let nw = if w < i { w } else { w - 1 };
        assert(ns[nw] == os[w]);
        assert(key_at(ns, nw) == k);
    }
    assert forall|j: int| 0 <= j < ns.len() implies #[trigger] ns[j] == os[if j < i { j } else { j + 1 }] by {}
    assert forall|a: int, b: int| 0 <= a < b < ns.len() implies key_at(ns, a) != key_at(ns, b) by {
        let oa = if a < i { a } else { a + 1 };
        let ob = if b < i { b } else { b + 1 };
        assert(ns[a] == os[oa]);
        assert(ns[b] == os[ob]);
        assert(key_at(os, oa) != key_at(os, ob));
    }
    assert forall|a: int, b: int| 0 <= a < b < ns.len() implies #[trigger] ns[a].index != #[trigger] ns[b].index by {
        let oa = if a < i { a } else { a + 1 };
        let ob = if b < i { b } else { b + 1 };
        assert(ns[a] == os[oa]);
        assert(ns[b] == os[ob]);
        assert(os[oa].index != os[ob].index);
    }
    assert forall|a: int| 0 <= a < ns.len() implies #[trigger] ns[a].index < next by {
        let oa = if a < i { a } else { a + 1 };
        assert(ns[a] == os[oa]);
        assert(os[oa].index < next);
    }
    assert forall|a: int| 0 <= a < ns.len() implies #[trigger] ns[a].current_endpoint == ns[a].descriptor.endpoint by {
        let oa = if a < i { a } else { a + 1 };
        assert(ns[a] == os[oa]);
        assert(os[oa].current_endpoint == os[oa].descriptor.endpoint);
    }
    assert forall|k: int| 0 <= k < ne.len() implies #[trigger] entry_backed(ns, ne[k]) by {
        assert(oe.contains(ne[k]));
        let o = choose|o: int| 0 <= o < oe.len() && oe[o] == ne[k];
        assert(entry_backed(os, oe[o]));
        let j = choose|j: int| slot_at(os, j, oe[o].1@, oe[o].0);
        assert(j != i);
        let nj = if j < i { j } else { j - 1 };
        assert(ns[nj] == os[j]);
        assert(slot_at(ns, nj, ne[k].1@, ne[k].0));
    }
    assert forall|j: int| 0 <= j < ns.len() implies #[trigger] key_at(ns, j) != key_at(os, i) by {
        let oj = if j < i { j } else { j + 1 };
        assert(ns[j] == os[oj]);
        if oj < i {
            assert(key_at(os, oj) != key_at(os, i));
        } else {
            assert(key_at(os, i) != key_at(os, oj));
        }
    }
}

impl<S> PeerTable<S> {
    /// Points an endpoint at a present peer that sits there, replacing any earlier entry.
    fn set_endpoint_entry(&mut self, ep: Endpoint, pk: PublicKey)
        requires
            old(self).wf(),
            exists|i: int| slot_at(old(self).slots(), i, pk@, ep),
        ensures
            final(self).wf(),
            final(self).slots() == old(self).slots(),
            final(self).next() == old(self).next(),
            exists|k: int| 0 <= k < final(self).endpoints().len() && final(self).endpoints()[k] == (ep, pk),
            (forall|k: int| 0 <= k < old(self).endpoints().len() ==> old(self).endpoints()[k].0 != ep) ==> final(self).endpoints() == old(self).endpoints().push((ep, pk)),
    {
        let ghost s = self.slots();
        let ghost oe = self.endpoints();
        match self.find_endpoint_entry(&ep) {
            Some(k) => {
                self.endpoint_index.set(k, (ep, pk));
                assert(self.endpoints()[k as int] == (ep, pk));
                assert forall|k2: int| 0 <= k2 < self.endpoints().len() implies #[trigger] entry_backed(s, self.endpoints()[k2]) by {
                    if k2 != k {
                        assert(entry_backed(s, oe[k2]));
                    } else {
                        let w = choose|w: int| slot_at(s, w, pk@, ep);
                        assert(slot_at(s, w, self.endpoints()[k2].1@, self.endpoints()[k2].0));
                    }
                }
                assert forall|a: int, b: int| 0 <= a < b < self.endpoints().len() implies #[trigger] self.endpoints()[a].0
                    != #[trigger] self.endpoints()[b].0 by {
                    assert(oe[a].0 != oe[b].0);
                }
            },
            None => {
                self.endpoint_index.push((ep, pk));
                let ghost n = self.endpoints().len() - 1;
                assert(self.endpoints()[n] == (ep, pk));
                assert forall|k2: int| 0 <= k2 < self.endpoints().len() implies #[trigger] entry_backed(s, self.endpoints()[k2]) by {
                    if k2 < n {
                        assert(entry_backed(s, oe[k2]));
                    } else {
                        let w = choose|w: int| slot_at(s, w, pk@, ep);
                        assert(slot_at(s, w, self.endpoints()[k2].1@, self.endpoints()[k2].0));
                    }
                }
                assert forall|a: int, b: int| 0 <= a < b < self.endpoints().len() implies #[trigger] self.endpoints()[a].0
                    != #[trigger] self.endpoints()[b].0 by {
                    if b < n {
                        assert(oe[a].0 != oe[b].0);
                    } else {
                        assert(oe[a].0 != ep);
                    }
                }
            },
        }
    }
}

proof fn lemma_pushed_ok<S>(ms: Seq<PeerSlot<S>>, e: Seq<(Endpoint, PublicKey)>, next: u32, slot: PeerSlot<S>)
    requires
        slots_ok(ms, next),
        entries_ok(ms, e),
        !holds_key(ms, slot.descriptor.public_key@),
        slot.index == next,
        next < u32::MAX,
        slot.current_endpoint == slot.descriptor.endpoint,
    ensures
        slots_ok(ms.push(slot), (next + 1) as u32),
        entries_ok(ms.push(slot), e),
{
    let ns = ms.push(slot);
    let n = ms.len() as int;
    assert forall|j: int| 0 <= j < n implies #[trigger] ns[j] == ms[j] by {}
    assert forall|a: int, b: int| 0 <= a < b < ns.len() implies key_at(ns, a) != key_at(ns, b) by {
        assert(ns[a] == ms[a]);
        if b < n {
            assert(ns[b] == ms[b]);
            assert(key_at(ms, a) != key_at(ms, b));
        } else {
            assert(key_at(ms, a) != slot.descriptor.public_key@);
        }
    }
    assert forall|a: int, b: int| 0 <= a < b < ns.len() implies #[trigger] ns[a].index != #[trigger] ns[b].index by {
        assert(ns[a] == ms[a]);
        assert(ms[a].index < next);
        if b < n {
            assert(ns[b] == ms[b]);
            assert(ms[a].index != ms[b].index);
        }
    }
    assert forall|a: int| 0 <= a < ns.len() implies #[trigger] ns[a].index < next + 1 by {
        if a < n {
            assert(ns[a] == ms[a]);
            assert(ms[a].index < next);
        }
    }
    assert forall|a: int| 0 <= a < ns.len() implies #[trigger] ns[a].current_endpoint == ns[a].descriptor.endpoint by {
        if a < n {
            assert(ns[a] == ms[a]);
            assert(ms[a].current_endpoint == ms[a].descriptor.endpoint);
        }
    }
    assert forall|k: int| 0 <= k < e.len() implies #[trigger] entry_backed(ns, e[k]) by {
        assert(entry_backed(ms, e[k]));
        let j = choose|j: int| slot_at(ms, j, e[k].1@, e[k].0);
        assert(ns[j] == ms[j]);
        assert(slot_at(ns, j, e[k].1@, e[k].0));
    }
}

impl<S: Session> PeerTable<S> {
    /// Adds a validated peer with a fresh session under the next index; a peer with the
    /// same key is replaced. Nothing changes when the descriptor is invalid, the index
    /// space is used up, or the session cannot be built.
    pub fn add_peer(&mut self, local: &PrivateKey, d: PeerConfig, now: u64) -> (r: Result<u32, WgAgentError>)
        requires
            old(self).wf(),
        ensures
            final(self).wf(),
            !peer_config_ok(d) ==> r matches Err(WgAgentError::Config(_)),
            peer_config_ok(d) && old(self).next() == u32::MAX ==> r matches Err(WgAgentError::WireGuard(_)),
            peer_config_ok(d) && old(self).next() < u32::MAX && S::opens(
                local@,
                d.public_key@,
                d.preshared_key,
                d.keepalive_interval,
                old(self).next(),
            ) ==> r is Ok,
            r is Err ==> final(self).slots() == old(self).slots() && final(self).endpoints() == old(self).endpoints()
                && final(self).next() == old(self).next(),
            r matches Ok(idx) ==> {
                let n = final(self).slots().len();
                &&& peer_config_ok(d)
                &&& idx == old(self).next()
                &&& final(self).next() == old(self).next() + 1
                &&& n >= 1
                &&& final(self).slots()[n - 1].descriptor == d
                &&& final(self).slots()[n - 1].index == idx
                &&& final(self).slots()[n - 1].current_endpoint == d.endpoint
                &&& final(self).slots()[n - 1].last_activity == now
                &&& old(self).has_key(d.public_key@) ==> exists|i: int|
                    0 <= i < old(self).slots().len() && old(self).key(i) == d.public_key@
                        && final(self).slots().drop_last() == old(self).slots().remove(i)
                &&& !old(self).has_key(d.public_key@) ==> final(self).slots().drop_last() == old(self).slots()
                &&& d.endpoint matches Some(ep) ==> exists|k: int|
                    0 <= k < final(self).endpoints().len() && final(self).endpoints()[k] == (ep, d.public_key)
                &&& final(self).has_key(d.public_key@)
                &&& forall|k: Seq<u8>| old(self).has_key(k) ==> #[trigger] final(self).has_key(k)
                &&& !old(self).has_key(d.public_key@) && d.endpoint is None ==> final(self).endpoints() == old(self).endpoints()
                &&& !old(self).has_key(d.public_key@) && (d.endpoint matches Some(ep) && forall|k: int|
                    0 <= k < old(self).endpoints().len() ==> old(self).endpoints()[k].0 != ep) ==> final(self).endpoints()
                    == old(self).endpoints().push((d.endpoint->0, d.public_key))
            },
    {
        match d.validate() {
            Ok(()) => {},
            Err(e) => {
                return Err(e);
            },
        }
        if self.next_index == u32::MAX {
            return Err(WgAgentError::WireGuard(msg("Peer index space exhausted")));
        }
        let session = match S::open(local, &d, self.next_index) {
            Ok(s) => s,
            Err(e) => {
                return Err(e);
            },
        };
        let pk = d.public_key;
        self.remove_peer(&pk);
        let ghost mid = *self;
        let ghost ms = self.slots();
        let idx = self.next_index;
        let ep = d.endpoint;
        let slot = PeerSlot {
            descriptor: d,
            session,
            current_endpoint: ep,
            last_activity: now,
            index: idx,
        };
        proof {
            lemma_pushed_ok(ms, self.endpoints(), idx, slot);
        }
        self.slots.push(slot);
        self.next_index = idx + 1;
        assert(self.slots().drop_last() =~= ms);
        assert(key_at(self.slots(), self.slots().len() - 1) == pk@);
        assert forall|k: Seq<u8>| holds_key(ms, k) implies #[trigger] holds_key(self.slots(), k) by {
            let w = choose|w: int| 0 <= w < ms.len() && #[trigger] key_at(ms, w) == k;
            assert(self.slots()[w] == ms[w]);
            assert(key_at(self.slots(), w) == k);
        }
        match ep {
            Some(e) => {
                let ghost n = self.slots().len() - 1;
                assert(slot_at(self.slots(), n, pk@, e));
                self.set_endpoint_entry(e, pk);
            },
            None => {},
        }
        assert(holds_key(self.slots(), pk@));
        assert forall|k: Seq<u8>| old(self).has_key(k) implies #[trigger] self.has_key(k) by {
            if k != pk@ {
                assert(mid.has_key(k));
            }
        }
        Ok(idx)
    }
}

impl<S: Session> PeerTable<S> {
    /// Runs the session of the peer at position `i` on a datagram from `source`.
    fn run_decapsulate(&mut self, i: usize, source: &Endpoint, datagram: &[u8]) -> (r: SessionResult)
        requires
            old(self).wf(),
            i < old(self).slots().len(),
            datagram@.len() <= MAX_PACKET_SIZE,
        ensures
            final(self).wf(),
            final(self).endpoints() == old(self).endpoints(),
            final(self).next() == old(self).next(),
            same_shape(final(self).slots(), old(self).slots()),
            traced(old(self).slots()[i as int], final(self).slots()[i as int], SessionCall::Decapsulate(Some(source.ip), datagram@, r)),
            forall|j: int| 0 <= j < old(self).slots().len() && j != i ==> #[trigger] final(self).slots()[j] == old(self).slots()[j],
    {
        let ghost os = self.slots();
        let r = self.slots[i].session.decapsulate(Some(source.ip), datagram);
        proof {
            lemma_same_shape_ok(self.slots(), os, self.next(), self.endpoints());
        }
        r
    }

    /// Handles one datagram from `source`: an unknown sender is dropped without running any
    /// session; otherwise the sender's own session decapsulates it, with the sender's
    /// address as hint, and its result decides the action. A quiet result refreshes the
    /// peer's activity time. A datagram too long for a session counts as a failure.
    pub fn inbound(&mut self, source: &Endpoint, datagram: &[u8], now: u64) -> (r: Inbound)
        requires
            old(self).wf(),
        ensures
            final(self).wf(),
            final(self).endpoints() == old(self).endpoints(),
            final(self).next() == old(self).next(),
            same_shape(final(self).slots(), old(self).slots()),
            inbound_result(old(self).slots(), final(self).slots(), old(self).endpoints(), *source, datagram@, now, r),
    {
        let i = match self.lookup_endpoint(source) {
            Some(i) => i,
            None => {
                return Inbound::Unknown;
            },
        };
        if datagram.len() > MAX_PACKET_SIZE {
            return Inbound::Failed;
        }
        let ghost os = self.slots();
        let res = self.run_decapsulate(i, source, datagram);
        let ghost ms = self.slots();
        let ghost g = res;
        let a = inbound_of(res);
        match a {
            Inbound::Quiet => {
                self.touch(i, now);
                assert forall|j: int| 0 <= j < os.len() && j != i implies #[trigger] self.slots()[j] == os[j] by {
                    assert(ms[j] == os[j]);
                }
                assert(self.slots()[i as int].session == ms[i as int].session);
            },
            _ => {},
        }
        assert(last_result(self.slots()[i as int]) == g);
        a
    }

    /// Runs the session of the peer at position `i` on an outgoing packet, or its timers.
    fn run_session(&mut self, i: usize, packet: &[u8], timers: bool) -> (r: SessionResult)
        requires
            old(self).wf(),
            i < old(self).slots().len(),
            packet@.len() <= MAX_PLAINTEXT_SIZE,
        ensures
            final(self).wf(),
            final(self).endpoints() == old(self).endpoints(),
            final(self).next() == old(self).next(),
            same_shape(final(self).slots(), old(self).slots()),
            traced(old(self).slots()[i as int], final(self).slots()[i as int], if timers {
                SessionCall::Tick(r)
            } else {
                SessionCall::Encapsulate(packet@, r)
            }),
            forall|j: int| 0 <= j < old(self).slots().len() && j != i ==> #[trigger] final(self).slots()[j] == old(self).slots()[j],
    {
        let ghost os = self.slots();
        let r = if timers {
            self.slots[i].session.tick()
        } else {
            self.slots[i].session.encapsulate(packet)
        };

        proof {
            lemma_same_shape_ok(self.slots(), os, self.next(), self.endpoints());
        }
        r
    }

    /// Picks the peer for a packet read from the TUN device: each session in insertion
    /// order is offered the packet, and the first that hands back bytes for a peer with an
    /// endpoint wins with those bytes; later sessions are not run. Also returns how many
    /// of the sessions run failed. A packet too long for a session runs none.
    pub fn outbound(&mut self, packet: &[u8]) -> (r: (Option<Transmit>, u64))
        requires
            old(self).wf(),
        ensures
            final(self).wf(),
            final(self).endpoints() == old(self).endpoints(),
            final(self).next() == old(self).next(),
            same_shape(final(self).slots(), old(self).slots()),
            outbound_result(old(self).slots(), final(self).slots(), packet@, r.0),
            r.1 == outbound_failures(final(self).slots(), packet@, r.0),
    {
        if packet.len() > MAX_PLAINTEXT_SIZE {
            return (None, 0);
        }
        let ghost os = self.slots();
        let n = self.slots.len();
        let mut errors: u64 = 0;
        let mut i: usize = 0;
        assert(self.slots().subrange(0, 0) =~= Seq::<PeerSlot<S>>::empty());
        while i < n
            invariant
                n == os.len(),
                i <= n,
                errors <= i,
                packet@.len() <= MAX_PLAINTEXT_SIZE,
                self.wf(),
                self.endpoints() == old(self).endpoints(),
                self.next() == old(self).next(),
                same_shape(self.slots(), os),
                os == old(self).slots(),
                forall|j: int| i <= j < n ==> #[trigger] self.slots()[j] == os[j],
                forall|j: int| 0 <= j < i ==> traced(os[j], #[trigger] self.slots()[j], SessionCall::Encapsulate(packet@, last_result(self.slots()[j]))),
                forall|j: int| 0 <= j < i ==> !sendable(last_result(#[trigger] self.slots()[j]), os[j].current_endpoint),
                errors == count_failed(self.slots().subrange(0, i as int)),
            decreases n - i,
        {
            let ghost before = self.slots();
            let res = self.run_session(i, packet, false);
            let ghost g = res;
            proof {
                assert forall|j: int| 0 <= j < n implies {
                    &&& #[trigger] self.slots()[j].descriptor == os[j].descriptor
                    &&& self.slots()[j].index == os[j].index
                    &&& self.slots()[j].current_endpoint == os[j].current_endpoint
                } by {
                    assert(self.slots()[j].descriptor == before[j].descriptor);
                    assert(before[j].descriptor == os[j].descriptor);
                }
                assert(self.slots().subrange(0, i as int) =~= before.subrange(0, i as int));
                assert(self.slots().subrange(0, i + 1).drop_last() =~= self.slots().subrange(0, i as int));
                assert(last_result(self.slots()[i as int]) == g);
                assert(self.slots().subrange(0, i + 1).last() == self.slots()[i as int]);
            }
            match res {
                SessionResult::WriteToNetwork(b) => {
                    match self.slots[i].current_endpoint {
                        Some(ep) => {
                            return (Some(Transmit { slot: i, endpoint: ep, bytes: b }), errors);
                        },
                        None => {},
                    }
                },
                SessionResult::Failed(_) => {
                    errors = errors + 1;
                },
                _ => {},
            }
            i = i + 1;
        }
        (None, errors)
    }

    /// Advances every session's timers, in table order. Returns the datagrams that the
    /// results make for peers with an endpoint, in slot order, and how many sessions failed.
    pub fn tick_all(&mut self) -> (r: (Vec<Transmit>, u64))
        requires
            old(self).wf(),
        ensures
            final(self).wf(),
            final(self).endpoints() == old(self).endpoints(),
            final(self).next() == old(self).next(),
            same_shape(final(self).slots(), old(self).slots()),
            ticked(old(self).slots(), final(self).slots()),
            r.0@ == sends_of(final(self).slots()),
            r.1 == count_failed(final(self).slots()),
    {
        let ghost os = self.slots();
        let n = self.slots.len();
        let mut errors: u64 = 0;
        let mut out: Vec<Transmit> = Vec::new();
        let mut i: usize = 0;
        assert(self.slots().subrange(0, 0) =~= Seq::<PeerSlot<S>>::empty());
        while i < n
            invariant
                n == os.len(),
                i <= n,
                errors <= i,
                self.wf(),
                self.endpoints() == old(self).endpoints(),
                self.next() == old(self).next(),
                same_shape(self.slots(), os),
                os == old(self).slots(),
                forall|j: int| i <= j < n ==> #[trigger] self.slots()[j] == os[j],
                forall|j: int| 0 <= j < i ==> traced(os[j], #[trigger] self.slots()[j], SessionCall::Tick(last_result(self.slots()[j]))),
                out@ == sends_of(self.slots().subrange(0, i as int)),
                errors == count_failed(self.slots().subrange(0, i as int)),
            decreases n - i,
        {
            let ghost before = self.slots();
            let res = self.run_session(i, &[], true);
            let ghost g = res;
            proof {
                assert forall|j: int| 0 <= j < n implies {
                    &&& #[trigger] self.slots()[j].descriptor == os[j].descriptor
                    &&& self.slots()[j].index == os[j].index
                    &&& self.slots()[j].current_endpoint == os[j].current_endpoint
                } by {
                    assert(self.slots()[j].descriptor == before[j].descriptor);
                    assert(before[j].descriptor == os[j].descriptor);
                }
                assert(self.slots().subrange(0, i as int) =~= before.subrange(0, i as int));
                assert(self.slots().subrange(0, i + 1).drop_last() =~= self.slots().subrange(0, i as int));
                assert(last_result(self.slots()[i as int]) == g);
                assert(self.slots().subrange(0, i + 1).last() == self.slots()[i as int]);
                assert(self.slots().subrange(0, i + 1).len() == i + 1);
            }
            match res {
                SessionResult::WriteToNetwork(b) => {
                    match self.slots[i].current_endpoint {
                        Some(ep) => {
                            out.push(Transmit { slot: i, endpoint: ep, bytes: b });
                        },
                        None => {},
                    }
                },
                SessionResult::Failed(_) => {
                    errors = errors + 1;
                },
                _ => {},
            }
            i = i + 1;
        }
        assert(self.slots().subrange(0, n as int) =~= self.slots());
        (out, errors)
    }
}

/// Every endpoint entry names a present peer whose current endpoint is that endpoint.
pub proof fn lemma_endpoint_index_consistent<S>(t: &PeerTable<S>)
    requires
        t.wf(),
    ensures
        forall|k: int| 0 <= k < t.endpoints().len() ==> #[trigger] entry_backed(t.slots(), t.endpoints()[k]),
{
}

/// The slot indexes of a table are pairwise distinct.
pub proof fn lemma_peer_indexes_unique<S>(t: &PeerTable<S>)
    requires
        t.wf(),
    ensures
        forall|i: int, j: int|
            0 <= i < t.slots().len() && 0 <= j < t.slots().len() && i != j ==> #[trigger] t.slots()[i].index
                != #[trigger] t.slots()[j].index,
{
    assert forall|i: int, j: int|
        0 <= i < t.slots().len() && 0 <= j < t.slots().len() && i != j implies #[trigger] t.slots()[i].index
            != #[trigger] t.slots()[j].index by {
        if i < j {
            assert(t.slots()[i].index != t.slots()[j].index);
        } else {
            assert(t.slots()[j].index != t.slots()[i].index);
        }
    }
}

/// How many slots were active within the last 180 seconds before `now`.
pub open spec fn count_recent<S>(s: Seq<PeerSlot<S>>, now: u64) -> nat
    decreases s.len(),
{
    if s.len() == 0 {
        0
    } else {
        count_recent(s.drop_last(), now) + if s.last().last_activity <= now && now - s.last().last_activity
            < crate::peer::RECENT_HANDSHAKE_SECS {
            1nat
        } else {
            0nat
        }
    }
}

/// The peer with key `pk` is gone with its endpoint entry, and nothing else changed;
/// an absent key changes nothing.
pub open spec fn removed<S>(o: PeerTable<S>, n: PeerTable<S>, pk: PublicKey) -> bool {
    &&& !n.has_key(pk@)
    &&& n.next() == o.next()
    &&& !o.has_key(pk@) ==> n.slots() == o.slots() && n.endpoints() == o.endpoints()
    &&& o.has_key(pk@) ==> exists|i: int|
        0 <= i < o.slots().len() && o.key(i) == pk@ && n.slots() == o.slots().remove(i) && (n.endpoints()
            == o.endpoints() || exists|k: int|
            0 <= k < o.endpoints().len() && o.slots()[i].current_endpoint == Some(o.endpoints()[k].0)
                && n.endpoints() == o.endpoints().remove(k))
}

/// The descriptor `d` was added as the last slot, under the next index, with its
/// endpoint entry; an earlier peer with its key was replaced.
pub open spec fn added<S>(o: PeerTable<S>, n: PeerTable<S>, d: PeerConfig) -> bool {
    let len = n.slots().len();
    &&& len >= 1
    &&& n.slots()[len - 1].descriptor == d
    &&& n.slots()[len - 1].index == o.next()
    &&& n.next() == o.next() + 1
    &&& n.has_key(d.public_key@)
    &&& forall|k: Seq<u8>| o.has_key(k) ==> #[trigger] n.has_key(k)
    &&& d.endpoint matches Some(ep) ==> exists|k: int| 0 <= k < n.endpoints().len() && n.endpoints()[k] == (ep, d.public_key)
}

/// A peer could not be added: the table is as it was and one error was counted.
pub open spec fn failed_add<S>(o: PeerTable<S>, n: PeerTable<S>, oc: DeviceStats, nc: DeviceStats) -> bool {
    &&& n.slots() == o.slots()
    &&& n.endpoints() == o.endpoints()
    &&& n.next() == o.next()
    &&& nc == (DeviceStats { errors: sat_add(oc.errors, 1), ..oc })
}

/// Keys are pairwise distinct, and so are the endpoints that are set.
pub open spec fn distinct_peers(ps: Seq<PeerConfig>) -> bool {
    forall|i: int, j: int|
        0 <= i < j < ps.len() ==> #[trigger] ps[i].public_key@ != #[trigger] ps[j].public_key@ && (ps[i].endpoint is Some
            ==> ps[i].endpoint != ps[j].endpoint)
}

/// The endpoint entries the descriptors call for, in order.
pub open spec fn configured_endpoints(ps: Seq<PeerConfig>) -> Seq<(Endpoint, PublicKey)>
    decreases ps.len(),
{
    if ps.len() == 0 {
        Seq::empty()
    } else {
        let rest = configured_endpoints(ps.drop_last());
        match ps.last().endpoint {
            Some(ep) => rest.push((ep, ps.last().public_key)),
            None => rest,
        }
    }
}

proof fn lemma_configured_endpoints_come_from(ps: Seq<PeerConfig>)
    ensures
        forall|k: int|
            0 <= k < configured_endpoints(ps).len() ==> exists|j: int|
                0 <= j < ps.len() && ps[j].endpoint == Some(#[trigger] configured_endpoints(ps)[k].0),
    decreases ps.len(),
{
    if ps.len() > 0 {
        let q = ps.drop_last();
        lemma_configured_endpoints_come_from(q);
        assert forall|k: int|
            0 <= k < configured_endpoints(ps).len() implies exists|j: int|
                0 <= j < ps.len() && ps[j].endpoint == Some(#[trigger] configured_endpoints(ps)[k].0) by {
            if k < configured_endpoints(q).len() {
                let j = choose|j: int| 0 <= j < q.len() && q[j].endpoint == Some(configured_endpoints(q)[k].0);
                assert(ps[j] == q[j]);
            } else {
                assert(ps[ps.len() - 1] == ps.last());
            }
        }
    }
}

/// A device is owed for these peers: there is at least one, each is valid, keys and
/// endpoints are distinct, and the session of the peer at position `j` opens under
/// index `j`.
pub open spec fn device_builds<S: Session>(local: Seq<u8>, ps: Seq<PeerConfig>) -> bool {
    &&& 0 < ps.len() < u32::MAX
    &&& forall|j: int| 0 <= j < ps.len() ==> peer_config_ok(#[trigger] ps[j])
    &&& distinct_peers(ps)
    &&& forall|j: int|
        0 <= j < ps.len() ==> S::opens(
            local,
            (#[trigger] ps[j]).public_key@,
            ps[j].preshared_key,
            ps[j].keepalive_interval,
            j as u32,
        )
}

/// What a device is built from.
#[derive(Clone)]
pub struct DeviceConfig {
    /// The interface name asked for.
    pub interface: String,
    pub mtu: u16,
    pub keypair: KeyPair,
    /// UDP port to listen on; 0 picks one.
    pub listen_port: u16,
    pub peers: Vec<PeerConfig>,
}

/// Commands a running device takes, in order.
pub enum DeviceCommand {
    Stop,
    AddPeer(PeerConfig),
    RemovePeer(PublicKey),
}

/// One network's running engine: its peer table and counters. The caller owns the TUN
/// and UDP handles and hands each event here.
pub struct WgDevice<S> {
    config: DeviceConfig,
    actual_interface: String,
    listen_port: u16,
    peers: PeerTable<S>,
    stats: DeviceStats,
}

impl<S> WgDevice<S> {
    pub closed spec fn table(&self) -> PeerTable<S> {
        self.peers
    }

    pub closed spec fn counters(&self) -> DeviceStats {
        self.stats
    }

    pub closed spec fn interface(&self) -> Seq<char> {
        self.actual_interface@
    }

    /// The local private key the sessions are built from.
    pub closed spec fn local_key(&self) -> Seq<u8> {
        self.config.keypair.private@
    }

    pub open spec fn wf(&self) -> bool {
        self.table().wf()
    }

    /// The interface name the OS actually assigned.
    pub fn interface_name(&self) -> (r: &str)
        ensures
            r@ == self.interface(),
    {
        self.actual_interface.as_str()
    }

    pub closed spec fn port(&self) -> u16 {
        self.listen_port
    }

    /// The UDP port actually bound.
    pub fn listen_port(&self) -> (r: u16)
        ensures
            r == self.port(),
    {
        self.listen_port
    }

    /// A snapshot of the counters.
    pub fn stats(&self) -> (r: DeviceStats)
        ensures
            r == self.counters(),
    {
        self.stats
    }

    /// The peer table.
    pub fn peers(&self) -> (r: &PeerTable<S>)
        ensures
            *r == self.table(),
    {
        &self.peers
    }

    /// How many peers sent or received within the last 180 seconds before `now`.
    pub fn recently_active(&self, now: u64) -> (r: usize)
        ensures
            r == count_recent(self.table().slots(), now),
    {
        let n = self.peers.len();
        let mut count: usize = 0;
        let mut i: usize = 0;
        while i < n
            invariant
                n == self.table().slots().len(),
                i <= n,
                count <= i,
                count == count_recent(self.table().slots().subrange(0, i as int), now),
            decreases n - i,
        {
            let ghost p = self.table().slots().subrange(0, i as int);
            assert(self.table().slots().subrange(0, i + 1).drop_last() =~= p);
            let t = self.peers.slot(i).last_activity;
            if t <= now && now - t < crate::peer::RECENT_HANDSHAKE_SECS {
                count = count + 1;
            }
            i = i + 1;
        }
        assert(self.table().slots().subrange(0, n as int) =~= self.table().slots());
        count
    }

    /// Counts a datagram sent to the peer at position `slot` and refreshes its activity.
    pub fn on_sent(&mut self, slot: usize, bytes: u64, now: u64)
        requires
            old(self).wf(),
            slot < old(self).table().slots().len(),
        ensures
            final(self).wf(),
            final(self).counters() == (DeviceStats {
                tx_bytes: sat_add(old(self).counters().tx_bytes, bytes),
                tx_packets: sat_add(old(self).counters().tx_packets, 1),
                ..old(self).counters()
            }),
            stats_le(old(self).counters(), final(self).counters()),
            final(self).table().slots()[slot as int].last_activity == now,
            same_shape(final(self).table().slots(), old(self).table().slots()),
    {
        self.stats.record_tx(bytes);
        self.peers.touch(slot, now);
    }

    /// Counts timer traffic sent to the peer at position `slot`.
    pub fn on_timer_sent(&mut self, slot: usize, bytes: u64, now: u64)
        requires
            old(self).wf(),
            slot < old(self).table().slots().len(),
        ensures
            final(self).wf(),
            final(self).counters() == (DeviceStats { tx_bytes: sat_add(old(self).counters().tx_bytes, bytes), ..old(self).counters() }),
            stats_le(old(self).counters(), final(self).counters()),
            final(self).table().slots()[slot as int].last_activity == now,
            same_shape(final(self).table().slots(), old(self).table().slots()),
    {
        self.stats.record_tx_bytes(bytes);
        self.peers.touch(slot, now);
    }

    /// Counts a packet written to the TUN device.
    pub fn on_delivered(&mut self, bytes: u64)
        ensures
            final(self).table() == old(self).table(),
            final(self).counters() == (DeviceStats {
                rx_bytes: sat_add(old(self).counters().rx_bytes, bytes),
                rx_packets: sat_add(old(self).counters().rx_packets, 1),
                ..old(self).counters()
            }),
            stats_le(old(self).counters(), final(self).counters()),
    {
        self.stats.record_rx(bytes);
    }

    /// Counts failures (a failed send or write, a session error).
    pub fn on_errors(&mut self, n: u64)
        ensures
            final(self).table() == old(self).table(),
            final(self).counters() == (DeviceStats { errors: sat_add(old(self).counters().errors, n), ..old(self).counters() }),
            stats_le(old(self).counters(), final(self).counters()),
    {
        self.stats.record_errors(n);
    }

    /// Removes a peer and its endpoint entry.
    pub fn remove_peer(&mut self, public_key: &PublicKey) -> (r: bool)
        requires
            old(self).wf(),
        ensures
            final(self).wf(),
            r == old(self).table().has_key(public_key@),
            !final(self).table().has_key(public_key@),
            final(self).counters() == old(self).counters(),
    {
        self.peers.remove_peer(public_key)
    }
}

impl<S: Session> WgDevice<S> {
    /// Applies one command: `Stop` ends the command loop (the result is `false`);
    /// a peer that cannot be added leaves the table unchanged and counts one error.
    pub fn handle_command(&mut self, cmd: DeviceCommand, now: u64) -> (r: bool)
        requires
            old(self).wf(),
        ensures
            final(self).wf(),
            r == !(cmd is Stop),
            stats_le(old(self).counters(), final(self).counters()),
            cmd is Stop ==> final(self).table() == old(self).table() && final(self).counters() == old(self).counters(),
            cmd matches DeviceCommand::RemovePeer(pk) ==> removed(old(self).table(), final(self).table(), pk)
                && final(self).counters() == old(self).counters(),
            cmd matches DeviceCommand::AddPeer(d) ==> added(old(self).table(), final(self).table(), d)
                && final(self).counters() == old(self).counters() || failed_add(
                old(self).table(),
                final(self).table(),
                old(self).counters(),
                final(self).counters(),
            ),
            cmd matches DeviceCommand::AddPeer(d) ==> (peer_config_ok(d) && old(self).table().next() < u32::MAX && S::opens(
                old(self).local_key(),
                d.public_key@,
                d.preshared_key,
                d.keepalive_interval,
                old(self).table().next(),
            )) ==> added(old(self).table(), final(self).table(), d) && final(self).counters() == old(self).counters(),
            cmd matches DeviceCommand::AddPeer(d) ==> !peer_config_ok(d) ==> failed_add(
                old(self).table(),
                final(self).table(),
                old(self).counters(),
                final(self).counters(),
            ),
    {
        match cmd {
            DeviceCommand::Stop => false,
            DeviceCommand::AddPeer(d) => {
                match self.peers.add_peer(&self.config.keypair.private, d, now) {
                    Ok(_) => {},
                    Err(_) => {
                        self.stats.record_errors(1);
                    },
                }
                true
            },
            DeviceCommand::RemovePeer(pk) => {
                self.peers.remove_peer(&pk);
                true
            },
        }
    }

    /// Picks the peer for a packet read from the TUN device and counts failed sessions.
    pub fn on_tun_packet(&mut self, packet: &[u8]) -> (r: Option<Transmit>)
        requires
            old(self).wf(),
        ensures
            final(self).wf(),
            stats_le(old(self).counters(), final(self).counters()),
            same_shape(final(self).table().slots(), old(self).table().slots()),
            outbound_result(old(self).table().slots(), final(self).table().slots(), packet@, r),
            final(self).counters() == (DeviceStats {
                errors: sat_add(old(self).counters().errors, outbound_failures(final(self).table().slots(), packet@, r) as u64),
                ..old(self).counters()
            }),
    {
        let (t, errors) = self.peers.outbound(packet);
        self.stats.record_errors(errors);
        t
    }

    /// Handles a datagram from `source`; a failed session counts one error.
    pub fn on_datagram(&mut self, source: &Endpoint, datagram: &[u8], now: u64) -> (r: Inbound)
        requires
            old(self).wf(),
        ensures
            final(self).wf(),
            stats_le(old(self).counters(), final(self).counters()),
            same_shape(final(self).table().slots(), old(self).table().slots()),
            inbound_result(old(self).table().slots(), final(self).table().slots(), old(self).table().endpoints(), *source, datagram@, now, r),
            final(self).counters() == (if r is Failed {
                DeviceStats { errors: sat_add(old(self).counters().errors, 1), ..old(self).counters() }
            } else {
                old(self).counters()
            }),
    {
        let r = self.peers.inbound(source, datagram, now);
        match r {
            Inbound::Failed => {
                self.stats.record_errors(1);
            },
            _ => {},
        }
        r
    }

    /// Advances every session's timers and counts failed sessions; returns what to send.
    pub fn on_timer(&mut self) -> (r: Vec<Transmit>)
        requires
            old(self).wf(),
        ensures
            final(self).wf(),
            stats_le(old(self).counters(), final(self).counters()),
            same_shape(final(self).table().slots(), old(self).table().slots()),
            ticked(old(self).table().slots(), final(self).table().slots()),
            r@ == sends_of(final(self).table().slots()),
            final(self).counters() == (DeviceStats {
                errors: sat_add(old(self).counters().errors, count_failed(final(self).table().slots()) as u64),
                ..old(self).counters()
            }),
    {
        let (out, errors) = self.peers.tick_all();
        self.stats.record_errors(errors);
        out
    }

    /// Builds the device state once the TUN device and the UDP socket exist: one slot per
    /// configured peer, indexes from 0 in order, each with a fresh session. At least one
    /// peer is required.
    pub fn new(config: DeviceConfig, actual_interface: String, listen_port: u16, now: u64) -> (r: Result<WgDevice<S>, WgAgentError>)
        ensures
            config.peers@.len() == 0 ==> r matches Err(WgAgentError::Config(_)),
            r matches Ok(d) ==> {
                &&& d.wf()
                &&& d.interface() == actual_interface@
                &&& d.port() == listen_port
                &&& d.counters() == DeviceStats::spec_zero()
                &&& forall|j: int| 0 <= j < config.peers@.len() ==> #[trigger] d.table().has_key(config.peers@[j].public_key@)
                &&& forall|j: int| 0 <= j < config.peers@.len() ==> peer_config_ok(#[trigger] config.peers@[j])
                &&& d.local_key() == config.keypair.private@
                &&& distinct_peers(config.peers@) ==> {
                    &&& d.table().slots().len() == config.peers@.len()
                    &&& forall|j: int|
                        0 <= j < config.peers@.len() ==> same_descriptor(#[trigger] d.table().slots()[j].descriptor, config.peers@[j])
                            && d.table().slots()[j].index == j
                    &&& d.table().endpoints() == configured_endpoints(config.peers@)
                }
            },
            device_builds::<S>(config.keypair.private@, config.peers@) ==> r is Ok,
    {
        if config.peers.len() == 0 {
            return Err(WgAgentError::Config(msg("At least one peer must be configured")));
        }
        let mut table: PeerTable<S> = PeerTable::new();
        let mut i: usize = 0;
        while i < config.peers.len()
            invariant
                i <= config.peers@.len(),
                table.wf(),
                forall|j: int| 0 <= j < i ==> #[trigger] table.has_key(config.peers@[j].public_key@),
                forall|j: int| 0 <= j < i ==> peer_config_ok(#[trigger] config.peers@[j]),
                distinct_peers(config.peers@) ==> {
                    &&& table.slots().len() == i
                    &&& table.next() == i
                    &&& forall|j: int|
                        0 <= j < i ==> same_descriptor(#[trigger] table.slots()[j].descriptor, config.peers@[j])
                            && table.slots()[j].index == j
                    &&& table.endpoints() == configured_endpoints(config.peers@.subrange(0, i as int))
                },
            decreases config.peers@.len() - i,
        {
            let ghost before = table;
            proof {
                if distinct_peers(config.peers@) {
                    let pre = config.peers@.subrange(0, i as int);
                    lemma_configured_endpoints_come_from(pre);
                    assert forall|w: int| 0 <= w < before.slots().len() implies #[trigger] key_at(before.slots(), w)
                        != config.peers@[i as int].public_key@ by {
                        assert(same_descriptor(before.slots()[w].descriptor, config.peers@[w]));
                        assert(config.peers@[w].public_key@ != config.peers@[i as int].public_key@);
                    }
                    if config.peers@[i as int].endpoint is Some {
                        assert forall|k: int| 0 <= k < before.endpoints().len() implies before.endpoints()[k].0
                            != config.peers@[i as int].endpoint->0 by {
                            let j = choose|j: int| 0 <= j < pre.len() && pre[j].endpoint == Some(#[trigger] configured_endpoints(pre)[k].0);
                            assert(pre[j] == config.peers@[j]);
                            assert(config.peers@[j].public_key@ != config.peers@[i as int].public_key@);
                        }
                    }
                }
            }
            let d = config.peers[i].duplicate();
            proof {
                let o = config.peers@[i as int];
                assert forall|j: int| 0 <= j < o.allowed_ips@.len() implies (#[trigger] cidr_literal(o.allowed_ips@[j]@) is Some)
                    == (cidr_literal(d.allowed_ips@[j]@) is Some) by {
                    assert(d.allowed_ips@[j]@ == o.allowed_ips@[j]@);
                }
                assert(peer_config_ok(d) ==> peer_config_ok(o));
            }
            let pk = d.public_key;
            proof {
                if device_builds::<S>(config.keypair.private@, config.peers@) {
                    assert(peer_config_ok(config.peers@[i as int]));
                    assert(peer_config_ok(d));
                    assert(S::opens(
                        config.keypair.private@,
                        config.peers@[i as int].public_key@,
                        config.peers@[i as int].preshared_key,
                        config.peers@[i as int].keepalive_interval,
                        i as u32,
                    ));
                }
            }
            match table.add_peer(&config.keypair.private, d, now) {
                Ok(_) => {
                    assert(peer_config_ok(config.peers@[i as int]));
                },
                Err(e) => {
                    return Err(e);
                },
            }
            proof {
                assert forall|j: int| 0 <= j <= i implies #[trigger] table.has_key(config.peers@[j].public_key@) by {
                    if j < i {
                        assert(before.has_key(config.peers@[j].public_key@));
                    }
                }
                if distinct_peers(config.peers@) {
                    let pre = config.peers@.subrange(0, i as int);
                    let post = config.peers@.subrange(0, i + 1);
                    assert(post.drop_last() =~= pre);
                    assert(post.last() == config.peers@[i as int]);
                    assert(table.slots().drop_last() =~= before.slots());
                    assert forall|j: int| 0 <= j <= i implies same_descriptor(#[trigger] table.slots()[j].descriptor, config.peers@[j])
                        && table.slots()[j].index == j by {
                        if j < i {
                            assert(table.slots()[j] == before.slots()[j]);
                        }
                    }
                }
            }
            i = i + 1;
        }
        assert(config.peers@.subrange(0, config.peers@.len() as int) =~= config.peers@);
        Ok(WgDevice { config, actual_interface, listen_port, peers: table, stats: DeviceStats::new() })
    }
}

} // verus!
