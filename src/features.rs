use vstd::prelude::*;
use std::collections::VecDeque;
use dashmap::DashMap;

verus! {

/// Length of the trailing traffic window, in milliseconds.
pub const WINDOW_MS: u64 = 1000;
/// A flow idle for longer than this (milliseconds) is evicted.
pub const CONNECTION_IDLE_MS: u64 = 300000;
/// Bytes of an Ethernet II header.
pub const ETHERNET_HEADER_LEN: usize = 14;

pub const PROTO_ICMP: u8 = 1;
pub const PROTO_TCP: u8 = 6;
pub const PROTO_UDP: u8 = 17;

/// Features of one captured frame. Rates are over the trailing window:
/// packets and bytes per second (floored), and the floored mean size.
/// `payload_entropy_milli` is the payload's Shannon entropy in thousandths
/// of a bit per byte, filled in by whoever evaluates the byte histogram.
#[derive(Clone, Copy, Debug, PartialEq, Eq, Structural)]
pub struct PacketFeatures {
    pub packet_size: u32,
    pub payload_size: u32,
    pub header_size: u32,
    pub protocol: u8,
    pub is_tcp: bool,
    pub is_udp: bool,
    pub is_icmp: bool,
    pub source_port: u16,
    pub dest_port: u16,
    pub is_well_known_port: bool,
    pub tcp_flags: Option<u8>,
    pub window_size: Option<u16>,
    pub urgent_pointer: Option<u16>,
    pub packets_per_second: u128,
    pub bytes_per_second: u128,
    pub avg_packet_size: u128,
    pub is_response: bool,
    pub connection_attempts: u32,
    pub payload_entropy_milli: u32,
}

/// A flow: addresses as big-endian IPv4 numbers, ports and protocol.
#[derive(Clone, Copy, Debug, PartialEq, Eq, Structural, Hash)]
pub struct ConnectionKey {
    pub source_ip: u32,
    pub dest_ip: u32,
    pub source_port: u16,
    pub dest_port: u16,
    pub protocol: u8,
}

/// Counters of one flow; `attempts` counts packets that carried SYN without
/// ACK (connection attempts).
#[derive(Clone, Copy, Debug, PartialEq, Eq, Structural)]
pub struct ConnectionStats {
    pub last_seen: u64,
    pub packet_count: u32,
    pub byte_count: u64,
    pub attempts: u32,
}

pub open spec fn be16(s: Seq<u8>, i: int) -> u16 {
    (s[i] as int * 256 + s[i + 1] as int) as u16
}

pub open spec fn be32(s: Seq<u8>, i: int) -> u32 {
    (((s[i] as int * 256 + s[i + 1] as int) * 256 + s[i + 2] as int) * 256 + s[i + 3] as int) as u32
}

pub open spec fn sat_sub(a: int, b: int) -> int {
    if a > b { a - b } else { 0 }
}

/// The IPv4 layer of a frame: everything after the Ethernet header.
pub open spec fn ip_layer(f: Seq<u8>) -> Seq<u8> {
    f.subrange(ETHERNET_HEADER_LEN as int, f.len() as int)
}

/// An IPv4 header can be read (at least 20 bytes after the Ethernet header).
pub open spec fn has_ipv4(f: Seq<u8>) -> bool {
    f.len() >= ETHERNET_HEADER_LEN + 20
}

/// Header length field (32-bit words) of an IPv4 header.
pub open spec fn ihl(ip: Seq<u8>) -> int {
    (ip[0] % 16) as int
}

/// Payload of an IPv4 packet: from the end of the header up to the total
/// length, both cut at the bytes present.
pub open spec fn ipv4_payload(ip: Seq<u8>) -> Seq<u8> {
    let start = 20 + sat_sub(ihl(ip) * 4, 20);
    let plen = sat_sub(be16(ip, 2) as int, ihl(ip) * 4);
    if ip.len() <= start {
        Seq::empty()
    } else {
        let end = if start + plen < ip.len() { start + plen } else { ip.len() as int };
        ip.subrange(start, end)
    }
}

/// Features read from the frame alone, with all traffic fields zero.
pub open spec fn frame_features(f: Seq<u8>) -> PacketFeatures {
    let base = PacketFeatures {
        packet_size: f.len() as u32,
        payload_size: 0,
        header_size: 0,
        protocol: 0,
        is_tcp: false,
        is_udp: false,
        is_icmp: false,
        source_port: 0,
        dest_port: 0,
        is_well_known_port: false,
        tcp_flags: None,
        window_size: None,
        urgent_pointer: None,
        packets_per_second: 0,
        bytes_per_second: 0,
        avg_packet_size: 0,
        is_response: false,
        connection_attempts: 0,
        payload_entropy_milli: 0,
    };
    if !has_ipv4(f) {
        base
    } else {
        let ip = ip_layer(f);
        let proto = ip[9];
        let hs = ihl(ip) * 4;
        let p = ipv4_payload(ip);
        let with_ip = PacketFeatures {
            protocol: proto,
            header_size: hs as u32,
            payload_size: sat_sub(f.len() as int, hs) as u32,
            is_tcp: proto == PROTO_TCP,
            is_udp: proto == PROTO_UDP,
            is_icmp: proto == PROTO_ICMP,
            ..base
        };
        if proto == PROTO_TCP && p.len() >= 20 {
            PacketFeatures {
                source_port: be16(p, 0),
                dest_port: be16(p, 2),
                tcp_flags: Some(p[13]),
                window_size: Some(be16(p, 14)),
                urgent_pointer: Some(be16(p, 18)),
                is_well_known_port: be16(p, 2) <= 1024,
                is_response: p[13] & 0x12 != 0,
                ..with_ip
            }
        } else if proto == PROTO_UDP && p.len() >= 8 {
            PacketFeatures {
                source_port: be16(p, 0),
                dest_port: be16(p, 2),
                is_well_known_port: be16(p, 2) <= 1024,
                ..with_ip
            }
        } else {
            with_ip
        }
    }
}

/// The flow a frame belongs to, when its transport header could be read.
pub open spec fn frame_key(f: Seq<u8>) -> Option<ConnectionKey> {
    let ff = frame_features(f);
    if has_ipv4(f) && ((ff.is_tcp && ff.tcp_flags is Some) || (ff.is_udp && ipv4_payload(ip_layer(f)).len() >= 8)) {
        Some(ConnectionKey {
            source_ip: be32(ip_layer(f), 12),
            dest_ip: be32(ip_layer(f), 16),
            source_port: ff.source_port,
            dest_port: ff.dest_port,
            protocol: ff.protocol,
        })
    } else {
        None
    }
}

/// True when a frame's TCP flags carry SYN without ACK.
pub open spec fn frame_syn(f: Seq<u8>) -> bool {
    match frame_features(f).tcp_flags {
        Some(fl) => fl & 0x02 != 0 && fl & 0x10 == 0,
        None => false,
    }
}

/// How often byte `b` occurs in `s`.
pub open spec fn byte_count(s: Seq<u8>, b: u8) -> nat
    decreases s.len(),
{
    if s.len() == 0 {
        0
    } else {
        byte_count(s.drop_last(), b) + if s.last() == b { 1nat } else { 0nat }
    }
}

pub proof fn lemma_byte_count_le(s: Seq<u8>, b: u8)
    ensures
        byte_count(s, b) <= s.len(),
    decreases s.len(),
{
    if s.len() > 0 {
        lemma_byte_count_le(s.drop_last(), b);
    }
}

pub open spec fn sum_sizes(s: Seq<(u64, u32)>) -> int
    decreases s.len(),
{
    if s.len() == 0 {
        0
    } else {
        sum_sizes(s.drop_last()) + s.last().1 as int
    }
}

/// An entry of the traffic window has expired at `now`.
pub open spec fn expired(entry: (u64, u32), now: u64, window: u64) -> bool {
    now >= entry.0 && now - entry.0 > window
}

/// Stats after one more packet of `size` bytes at `now`.
pub open spec fn bumped(s: ConnectionStats, size: u32, syn: bool, now: u64) -> ConnectionStats {
    ConnectionStats {
        last_seen: now,
        packet_count: if s.packet_count < u32::MAX { (s.packet_count + 1) as u32 } else { u32::MAX },
        byte_count: if s.byte_count as int + size as int <= u64::MAX as int {
            (s.byte_count + size) as u64
        } else {
            u64::MAX
        },
        attempts: if syn && s.attempts < u32::MAX { (s.attempts + 1) as u32 } else { s.attempts },
    }
}

/// Stats of a flow seen for the first time.
pub open spec fn fresh(size: u32, syn: bool, now: u64) -> ConnectionStats {
    ConnectionStats { last_seen: now, packet_count: 1, byte_count: size as u64, attempts: if syn { 1 } else { 0 } }
}

/// A flow as a tuple of plain integers: addresses, ports, protocol.
pub type FlowKey = (u32, u32, u16, u16, u8);

impl ConnectionKey {
    pub open spec fn flow(self) -> FlowKey {
        (self.source_ip, self.dest_ip, self.source_port, self.dest_port, self.protocol)
    }

    pub fn to_flow(&self) -> (r: FlowKey)
        ensures
            r == self.flow(),
    {
        (self.source_ip, self.dest_ip, self.source_port, self.dest_port, self.protocol)
    }
}

/// The per-flow counters.
pub type FlowTable = DashMap<FlowKey, ConnectionStats>;

/// The entries of a flow table.
pub uninterp spec fn flow_entries(m: FlowTable) -> Map<FlowKey, ConnectionStats>;

/// Relies on `DashMap::new`: an empty map.
#[verifier::external_body]
fn flow_table_new() -> (r: FlowTable)
    ensures
        flow_entries(r).dom() == Set::<FlowKey>::empty(),
{
    DashMap::new()
}

/// Relies on `DashMap::get`: the value of the key's entry, if any.
#[verifier::external_body]
fn flow_table_get(m: &FlowTable, k: FlowKey) -> (r: Option<ConnectionStats>)
    ensures
        r == (if flow_entries(*m).dom().contains(k) { Some(flow_entries(*m)[k]) } else { None::<ConnectionStats> }),
{
    m.get(&k).map(|e| *e.value())
}

/// Relies on `DashMap::insert`: the key now maps to the value, other
/// entries stay.
#[verifier::external_body]
fn flow_table_insert(m: &mut FlowTable, k: FlowKey, v: ConnectionStats)
    ensures
        flow_entries(*final(m)) == flow_entries(*old(m)).insert(k, v),
{
    m.insert(k, v);
}

/// Relies on `DashMap::retain`: keeps exactly the entries for which the
/// predicate (here `connection_live` at `now`) holds, unchanged.
#[verifier::external_body]
fn flow_table_retain_live(m: &mut FlowTable, now: u64)
    ensures
        forall|k: FlowKey| #[trigger] flow_entries(*final(m)).dom().contains(k)
            <==> flow_entries(*old(m)).dom().contains(k) && is_live(flow_entries(*old(m))[k], now),
        forall|k: FlowKey| flow_entries(*final(m)).dom().contains(k)
            ==> #[trigger] flow_entries(*final(m))[k] == flow_entries(*old(m))[k],
{
    m.retain(|_, s| connection_live(s, now));
}

/// A flow last seen at most the retention period before `now` is live.
pub open spec fn is_live(s: ConnectionStats, now: u64) -> bool {
    !(now >= s.last_seen && now - s.last_seen > CONNECTION_IDLE_MS)
}

pub fn connection_live(s: &ConnectionStats, now: u64) -> (r: bool)
    ensures
        r == is_live(*s, now),
{
    !(now >= s.last_seen && now - s.last_seen > CONNECTION_IDLE_MS)
}

/// Sliding-window traffic statistics and per-flow counters.
pub struct FeatureExtractor {
    pub window_ms: u64,
    pub packet_history: VecDeque<(u64, u32)>,
    pub connection_history: FlowTable,
}

impl FeatureExtractor {
    pub open spec fn wf(&self) -> bool {
        &&& self.window_ms > 0
    }

    pub fn new() -> (r: Self)
        ensures
            r.wf(),
            r.window_ms == WINDOW_MS,
            r.packet_history@.len() == 0,
            flow_entries(r.connection_history).dom() == Set::<FlowKey>::empty(),
    {
        FeatureExtractor { window_ms: WINDOW_MS, packet_history: VecDeque::new(), connection_history: flow_table_new() }
    }
}


fn read_be16(s: &[u8], i: usize) -> (r: u16)
    requires
        i + 1 < s@.len(),
    ensures
        r == be16(s@, i as int),
{
    s[i] as u16 * 256 + s[i + 1] as u16
}

fn read_be32(s: &[u8], i: usize) -> (r: u32)
    requires
        i + 3 < s@.len(),
    ensures
        r == be32(s@, i as int),
{
    ((s[i] as u32 * 256 + s[i + 1] as u32) * 256 + s[i + 2] as u32) * 256 + s[i + 3] as u32
}

fn copy_range(s: &[u8], start: usize, end: usize) -> (r: Vec<u8>)
    requires
        start <= end <= s@.len(),
    ensures
        r@ == s@.subrange(start as int, end as int),
{
    let mut r: Vec<u8> = Vec::new();
    let mut i: usize = start;
    while i < end
        invariant
            start <= i <= end <= s@.len(),
            r@ == s@.subrange(start as int, i as int),
        decreases end - i,
    {
        r.push(s[i]);
        i = i + 1;
    }
    r
}

/// The IPv4 payload of a frame; empty when no IPv4 header can be read.
pub fn ip_payload(frame: &[u8]) -> (r: Vec<u8>)
    ensures
        has_ipv4(frame@) ==> r@ == ipv4_payload(ip_layer(frame@)),
        !has_ipv4(frame@) ==> r@.len() == 0,
{
    if frame.len() < ETHERNET_HEADER_LEN + 20 {
        return Vec::new();
    }
    let ghost ip = ip_layer(frame@);
    let b = ETHERNET_HEADER_LEN;
    let hl: usize = ((frame[b] % 16) as usize) * 4;
    let total: usize = read_be16(frame, b + 2) as usize;
    assert(frame[b as int] == ip[0]);
    assert(total == be16(ip, 2)) by {
        assert(frame@[b + 2] == ip[2]);
        assert(frame@[b + 3] == ip[3]);
    }
    let start: usize = 20 + if hl > 20 { hl - 20 } else { 0 };
    let plen: usize = if total > hl { total - hl } else { 0 };
    let ip_len = frame.len() - b;
    if ip_len <= start {
        return Vec::new();
    }
    let end: usize = if start + plen < ip_len { start + plen } else { ip_len };
    let r = copy_range(frame, b + start, b + end);
    assert(r@ =~= ip.subrange(start as int, end as int));
    r
}

/// Counts of each byte value in `data`: entry `b` is how often `b` occurs.
pub fn byte_histogram(data: &[u8]) -> (r: Vec<u32>)
    requires
        data@.len() <= u32::MAX,
    ensures
        r@.len() == 256,
        forall|b: int| 0 <= b < 256 ==> #[trigger] r@[b] == byte_count(data@, b as u8),
{
    let mut r: Vec<u32> = vec![0u32; 256];
    let mut i: usize = 0;
    while i < data.len()
        invariant
            0 <= i <= data@.len() <= u32::MAX,
            r@.len() == 256,
            forall|b: int| 0 <= b < 256 ==> #[trigger] r@[b] == byte_count(data@.subrange(0, i as int), b as u8),
        decreases data@.len() - i,
    {
        let v = data[i];
        proof {
            assert(data@.subrange(0, i as int + 1).drop_last() =~= data@.subrange(0, i as int));
            assert forall|b: int| 0 <= b < 256 implies #[trigger] byte_count(data@.subrange(0, i as int), b as u8) <= i by {
                lemma_byte_count_le(data@.subrange(0, i as int), b as u8);
            }
        }
        let c = r[v as usize];
        r.set(v as usize, c + 1);
        i = i + 1;
    }
    assert(data@.subrange(0, data@.len() as int) =~= data@);
    r
}

/// The features a frame carries by itself (traffic fields left zero).
/// A frame too short for a layer leaves that layer's fields at their defaults.
pub fn parse_frame(frame: &[u8]) -> (r: PacketFeatures)
    requires
        frame@.len() <= u32::MAX,
    ensures
        r == frame_features(frame@),
{
    let mut f = PacketFeatures {
        packet_size: frame.len() as u32,
        payload_size: 0,
        header_size: 0,
        protocol: 0,
        is_tcp: false,
        is_udp: false,
        is_icmp: false,
        source_port: 0,
        dest_port: 0,
        is_well_known_port: false,
        tcp_flags: None,
        window_size: None,
        urgent_pointer: None,
        packets_per_second: 0,
        bytes_per_second: 0,
        avg_packet_size: 0,
        is_response: false,
        connection_attempts: 0,
        payload_entropy_milli: 0,
    };
    if frame.len() < ETHERNET_HEADER_LEN + 20 {
        return f;
    }
    let ghost ip = ip_layer(frame@);
    let b = ETHERNET_HEADER_LEN;
    assert(frame@[b as int] == ip[0] && frame@[b + 9] == ip[9]);
    let proto = frame[b + 9];
    let hs: u32 = ((frame[b] % 16) as u32) * 4;
    f.protocol = proto;
    f.header_size = hs;
    f.payload_size = if frame.len() as u32 > hs { frame.len() as u32 - hs } else { 0 };
    f.is_tcp = proto == PROTO_TCP;
    f.is_udp = proto == PROTO_UDP;
    f.is_icmp = proto == PROTO_ICMP;
    let p = ip_payload(frame);
    if proto == PROTO_TCP && p.len() >= 20 {
        let dport = read_be16(p.as_slice(), 2);
        let flags = p[13];
        f.source_port = read_be16(p.as_slice(), 0);
        f.dest_port = dport;
        f.tcp_flags = Some(flags);
        f.window_size = Some(read_be16(p.as_slice(), 14));
        f.urgent_pointer = Some(read_be16(p.as_slice(), 18));
        f.is_well_known_port = dport <= 1024;
        f.is_response = flags & 0x12 != 0;
    } else if proto == PROTO_UDP && p.len() >= 8 {
        let dport = read_be16(p.as_slice(), 2);
        f.source_port = read_be16(p.as_slice(), 0);
        f.dest_port = dport;
        f.is_well_known_port = dport <= 1024;
    }
    f
}

/// The flow of a frame, when its transport header could be read.
pub fn connection_key(frame: &[u8]) -> (r: Option<ConnectionKey>)
    requires
        frame@.len() <= u32::MAX,
    ensures
        r == frame_key(frame@),
{
    let ff = parse_frame(frame);
    if frame.len() < ETHERNET_HEADER_LEN + 20 {
        return None;
    }
    let p = ip_payload(frame);
    if (ff.is_tcp && ff.tcp_flags.is_some()) || (ff.is_udp && p.len() >= 8) {
        let ghost ip = ip_layer(frame@);
        let b = ETHERNET_HEADER_LEN;
        assert(frame@[b + 12] == ip[12] && frame@[b + 13] == ip[13] && frame@[b + 14] == ip[14] && frame@[b + 15] == ip[15]);
        assert(frame@[b + 16] == ip[16] && frame@[b + 17] == ip[17] && frame@[b + 18] == ip[18] && frame@[b + 19] == ip[19]);
        Some(ConnectionKey {
            source_ip: read_be32(frame, b + 12),
            dest_ip: read_be32(frame, b + 16),
            source_port: ff.source_port,
            dest_port: ff.dest_port,
            protocol: ff.protocol,
        })
    } else {
        None
    }
}

pub proof fn lemma_sum_sizes_bound(s: Seq<(u64, u32)>)
    ensures
        0 <= sum_sizes(s) <= s.len() * (u32::MAX as int),
    decreases s.len(),
{
    if s.len() > 0 {
        lemma_sum_sizes_bound(s.drop_last());
        assert((s.len() - 1) * (u32::MAX as int) + u32::MAX as int == s.len() * (u32::MAX as int)) by (nonlinear_arith);
    }
}

/// The window after dropping the first `k` entries of `h` and appending `e`.
pub open spec fn window_after(h: Seq<(u64, u32)>, k: int, e: (u64, u32)) -> Seq<(u64, u32)> {
    h.skip(k).push(e)
}

/// `k` is where eviction from the front of `h` stops: every earlier entry has
/// expired, and entry `k` (if any) has not.
pub open spec fn eviction_point(h: Seq<(u64, u32)>, k: int, now: u64, window: u64) -> bool {
    &&& 0 <= k <= h.len()
    &&& forall|j: int| 0 <= j < k ==> #[trigger] expired(h[j], now, window)
    &&& k < h.len() ==> !expired(h[k], now, window)
}

impl FeatureExtractor {
    /// Evicts expired entries from the front of the window, appends this
    /// packet, and returns packets per second, bytes per second and the mean
    /// packet size over the window (all floored).
    pub fn update_traffic_patterns(&mut self, packet_size: u32, now: u64) -> (r: (u128, u128, u128))
        requires
            old(self).wf(),
        ensures
            final(self).wf(),
            final(self).window_ms == old(self).window_ms,
            final(self).connection_history == old(self).connection_history,
            exists|k: int|
                eviction_point(old(self).packet_history@, k, now, old(self).window_ms)
                && final(self).packet_history@ == window_after(old(self).packet_history@, k, (now, packet_size)),
            r.0 == (final(self).packet_history@.len() as int) * 1000 / (final(self).window_ms as int),
            r.1 == sum_sizes(final(self).packet_history@) * 1000 / (final(self).window_ms as int),
            r.2 == sum_sizes(final(self).packet_history@) / (final(self).packet_history@.len() as int),
    {
        let ghost h0 = self.packet_history@;
        let ghost mut k: int = 0;
        while self.packet_history.len() > 0
            invariant
                self.window_ms == old(self).window_ms,
                self.connection_history == old(self).connection_history,
                0 <= k <= h0.len(),
                self.packet_history@ == h0.skip(k),
                forall|j: int| 0 <= j < k ==> #[trigger] expired(h0[j], now, self.window_ms),
            ensures
                0 <= k <= h0.len(),
                self.packet_history@ == h0.skip(k),
                forall|j: int| 0 <= j < k ==> #[trigger] expired(h0[j], now, self.window_ms),
                k == h0.len() || !expired(h0[k], now, self.window_ms),
            decreases self.packet_history@.len(),
        {
            let front = self.packet_history[0];
            if now >= front.0 && now - front.0 > self.window_ms {
                assert(h0[k] == front);
                self.packet_history.pop_front();
                proof {
                    assert(self.packet_history@ =~= h0.skip(k + 1));
                    k = k + 1;
                }
            } else {
                assert(h0[k] == front);
                break;
            }
        }
        self.packet_history.push_back((now, packet_size));
        proof {
            assert(self.packet_history@ =~= window_after(h0, k, (now, packet_size)));
            assert(eviction_point(h0, k, now, self.window_ms));
        }
        let n = self.packet_history.len();
        assert(n <= u64::MAX);
        let mut total: u128 = 0;
        let mut i: usize = 0;
        while i < n
            invariant
                n == self.packet_history@.len() <= u64::MAX,
                0 <= i <= n,
                total == sum_sizes(self.packet_history@.subrange(0, i as int)),
            decreases n - i,
        {
            proof {
                let sub = self.packet_history@.subrange(0, i as int + 1);
                assert(sub.drop_last() =~= self.packet_history@.subrange(0, i as int));
                lemma_sum_sizes_bound(sub);
                assert(sub.len() * (u32::MAX as int) <= (u64::MAX as int) * (u32::MAX as int)) by (nonlinear_arith)
                    requires sub.len() <= u64::MAX;
            }
            total = total + self.packet_history[i].1 as u128;
            i = i + 1;
        }
        proof {
            assert(self.packet_history@.subrange(0, n as int) =~= self.packet_history@);
            lemma_sum_sizes_bound(self.packet_history@);
            assert(n * (u32::MAX as int) <= (u64::MAX as int) * (u32::MAX as int)) by (nonlinear_arith)
                requires n <= u64::MAX;
        }
        let pps = n as u128 * 1000 / self.window_ms as u128;
        let bps = total * 1000 / self.window_ms as u128;
        let avg = total / n as u128;
        (pps, bps, avg)
    }

    /// The counters of a flow, if it is in the table.
    pub open spec fn stats_of(&self, key: ConnectionKey) -> Option<ConnectionStats> {
        if flow_entries(self.connection_history).dom().contains(key.flow()) {
            Some(flow_entries(self.connection_history)[key.flow()])
        } else {
            None
        }
    }

    /// The counters of a flow, if it is in the table.
    pub fn connection_stats(&self, key: &ConnectionKey) -> (r: Option<ConnectionStats>)
        ensures
            r == self.stats_of(*key),
    {
        flow_table_get(&self.connection_history, key.to_flow())
    }

    /// Counts one more packet of a flow, creating the flow on its first packet;
    /// returns the flow's new counters.
    pub fn update_connection_stats(&mut self, key: ConnectionKey, size: u32, syn: bool, now: u64) -> (r: ConnectionStats)
        requires
            old(self).wf(),
        ensures
            final(self).wf(),
            final(self).window_ms == old(self).window_ms,
            final(self).packet_history == old(self).packet_history,
            r == match old(self).stats_of(key) {
                Some(s) => bumped(s, size, syn, now),
                None => fresh(size, syn, now),
            },
            flow_entries(final(self).connection_history) == flow_entries(old(self).connection_history).insert(key.flow(), r),
    {
        let k = key.to_flow();
        let ns = match flow_table_get(&self.connection_history, k) {
            Some(s) => ConnectionStats {
                last_seen: now,
                packet_count: s.packet_count.saturating_add(1),
                byte_count: s.byte_count.saturating_add(size as u64),
                attempts: if syn { s.attempts.saturating_add(1) } else { s.attempts },
            },
            None => ConnectionStats { last_seen: now, packet_count: 1, byte_count: size as u64, attempts: if syn { 1 } else { 0 } },
        };
        flow_table_insert(&mut self.connection_history, k, ns);
        ns
    }

    /// Drops every flow idle for longer than the retention period.
    pub fn cleanup_old_connections(&mut self, now: u64)
        requires
            old(self).wf(),
        ensures
            final(self).wf(),
            final(self).window_ms == old(self).window_ms,
            final(self).packet_history == old(self).packet_history,
            forall|k: FlowKey| #[trigger] flow_entries(final(self).connection_history).dom().contains(k)
                <==> flow_entries(old(self).connection_history).dom().contains(k)
                && is_live(flow_entries(old(self).connection_history)[k], now),
            forall|k: FlowKey| flow_entries(final(self).connection_history).dom().contains(k)
                ==> #[trigger] flow_entries(final(self).connection_history)[k] == flow_entries(old(self).connection_history)[k],
    {
        flow_table_retain_live(&mut self.connection_history, now);
    }

    /// Features of one frame at time `now` (milliseconds): the frame's own
    /// fields, the flow's count of SYN-without-ACK packets after this one, and the window rates
    /// after this packet.
    pub fn extract_features(&mut self, frame: &[u8], now: u64) -> (r: PacketFeatures)
        requires
            old(self).wf(),
            frame@.len() <= u32::MAX,
        ensures
            final(self).wf(),
            final(self).window_ms == old(self).window_ms,
            match frame_key(frame@) {
                Some(key) => {
                    let st = match old(self).stats_of(key) {
                        Some(s) => bumped(s, frame@.len() as u32, frame_syn(frame@), now),
                        None => fresh(frame@.len() as u32, frame_syn(frame@), now),
                    };
                    r.connection_attempts == st.attempts
                    && flow_entries(final(self).connection_history) == flow_entries(old(self).connection_history).insert(key.flow(), st)
                },
                None => r.connection_attempts == 0 && final(self).connection_history == old(self).connection_history,
            },
            exists|k: int|
                eviction_point(old(self).packet_history@, k, now, old(self).window_ms)
                && final(self).packet_history@ == window_after(old(self).packet_history@, k, (now, frame@.len() as u32)),
            r == (PacketFeatures {
                packets_per_second: ((final(self).packet_history@.len() as int) * 1000 / (final(self).window_ms as int)) as u128,
                bytes_per_second: (sum_sizes(final(self).packet_history@) * 1000 / (final(self).window_ms as int)) as u128,
                avg_packet_size: (sum_sizes(final(self).packet_history@) / (final(self).packet_history@.len() as int)) as u128,
                connection_attempts: r.connection_attempts,
                ..frame_features(frame@)
            }),
    {
        let mut f = parse_frame(frame);
        let size = frame.len() as u32;
        match connection_key(frame) {
            Some(key) => {
                let syn = match f.tcp_flags {
                    Some(fl) => fl & 0x02 != 0 && fl & 0x10 == 0,
                    None => false,
                };
                let st = self.update_connection_stats(key, size, syn, now);
                f.connection_attempts = st.attempts;
            },
            None => {},
        }
        let rates = self.update_traffic_patterns(size, now);
        f.packets_per_second = rates.0;
        f.bytes_per_second = rates.1;
        f.avg_packet_size = rates.2;
        f
    }
}

/// A payload made of one repeated byte value has a single non-empty bin in
/// its histogram, holding the whole length: its entropy is zero.
pub proof fn lemma_constant_payload_single_bin(data: Seq<u8>, v: u8, other: u8)
    requires
        forall|i: int| 0 <= i < data.len() ==> data[i] == v,
        other != v,
    ensures
        byte_count(data, v) == data.len(),
        byte_count(data, other) == 0,
    decreases data.len(),
{
    if data.len() > 0 {
        lemma_constant_payload_single_bin(data.drop_last(), v, other);
    }
}

/// The bins of a histogram add up to the payload's length.
pub proof fn lemma_histogram_total(data: Seq<u8>)
    ensures
        bins_total(data, 256) == data.len(),
    decreases data.len(),
{
    if data.len() > 0 {
        lemma_histogram_total(data.drop_last());
        lemma_bins_total_step(data, 256);
    } else {
        lemma_bins_total_empty(data, 256);
    }
}

proof fn lemma_bins_total_empty(data: Seq<u8>, k: nat)
    requires
        data.len() == 0,
    ensures
        bins_total(data, k) == 0,
    decreases k,
{
    if k > 0 {
        lemma_bins_total_empty(data, (k - 1) as nat);
    }
}

/// Sum of the counts of byte values `0 .. k` in `data`.
pub open spec fn bins_total(data: Seq<u8>, k: nat) -> nat
    decreases k,
{
    if k == 0 { 0 } else { bins_total(data, (k - 1) as nat) + byte_count(data, (k - 1) as u8) }
}

proof fn lemma_bins_total_step(data: Seq<u8>, k: nat)
    requires
        data.len() > 0,
        k <= 256,
    ensures
        bins_total(data, k) == bins_total(data.drop_last(), k) + if (data.last() as nat) < k { 1nat } else { 0nat },
    decreases k,
{
    if k > 0 {
        lemma_bins_total_step(data, (k - 1) as nat);
    }
}

/// The IPv4 source address of a frame, when an IPv4 header can be read.
pub fn source_address(frame: &[u8]) -> (r: Option<u32>)
    ensures
        has_ipv4(frame@) ==> r == Some(be32(ip_layer(frame@), 12)),
        !has_ipv4(frame@) ==> r is None,
{
    if frame.len() < ETHERNET_HEADER_LEN + 20 {
        return None;
    }
    let ghost ip = ip_layer(frame@);
    let b = ETHERNET_HEADER_LEN;
    assert(frame@[b + 12] == ip[12] && frame@[b + 13] == ip[13] && frame@[b + 14] == ip[14] && frame@[b + 15] == ip[15]);
    Some(read_be32(frame, b + 12))
}

} // verus!
