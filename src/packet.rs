use vstd::prelude::*;
use crate::features::{be16, be32, has_ipv4, ip_layer, ipv4_payload, ip_payload, ETHERNET_HEADER_LEN, PROTO_TCP, PROTO_UDP};
use crate::http::{HttpInfo, TcpFlags, flags_of, http_parsed, parse_http_request, parse_tcp_flags};

verus! {

/// EtherType of IPv4.
pub const ETHERTYPE_IPV4: u16 = 0x0800;
/// Port whose TCP traffic is read as HTTP.
pub const HTTP_PORT: u16 = 80;

/// Summary of one captured IPv4 packet: time (seconds), addresses as IPv4
/// numbers, protocol, IP payload length, transport ports, TCP flags, and
/// the HTTP request it carries to or from port 80.
#[derive(Clone, Debug)]
pub struct PacketInfo {
    pub timestamp: u64,
    pub source_ip: u32,
    pub dest_ip: u32,
    pub protocol: u8,
    pub length: usize,
    pub source_port: Option<u16>,
    pub dest_port: Option<u16>,
    pub flags: Option<TcpFlags>,
    pub http_info: Option<HttpInfo>,
}

/// Payload of a TCP segment: after the header and its options, to the end.
pub open spec fn tcp_payload(p: Seq<u8>) -> Seq<u8> {
    let off = (p[12] / 16) as int;
    let start = 20 + if off > 5 { off * 4 - 20 } else { 0 };
    if p.len() <= start { Seq::empty() } else { p.subrange(start, p.len() as int) }
}

/// The frame is Ethernet carrying a readable IPv4 header.
pub open spec fn is_ipv4_frame(f: Seq<u8>) -> bool {
    has_ipv4(f) && be16(f, 12) == ETHERTYPE_IPV4
}

fn tcp_payload_of(p: &Vec<u8>) -> (r: Vec<u8>)
    requires
        p@.len() >= 20,
    ensures
        r@ == tcp_payload(p@),
{
    let off: usize = (p[12] / 16) as usize;
    let start: usize = 20 + if off > 5 { off * 4 - 20 } else { 0 };
    let mut r: Vec<u8> = Vec::new();
    if p.len() <= start {
        return r;
    }
    let mut i: usize = start;
    while i < p.len()
        invariant
            start <= i <= p@.len(),
            r@ == p@.subrange(start as int, i as int),
        decreases p@.len() - i,
    {
        r.push(p[i]);
        i = i + 1;
    }
    r
}

/// Summarises a captured frame; `None` unless it is Ethernet carrying IPv4.
pub fn packet_info(frame: &[u8], timestamp: u64) -> (r: Option<PacketInfo>)
    ensures
        r is Some == is_ipv4_frame(frame@),
        r is Some ==> {
            let i = r.unwrap();
            let ip = ip_layer(frame@);
            let p = ipv4_payload(ip);
            &&& i.timestamp == timestamp
            &&& i.source_ip == be32(ip, 12)
            &&& i.dest_ip == be32(ip, 16)
            &&& i.protocol == ip[9]
            &&& i.length == p.len()
            &&& if ip[9] == PROTO_TCP && p.len() >= 20 {
                &&& i.source_port == Some(be16(p, 0))
                &&& i.dest_port == Some(be16(p, 2))
                &&& i.flags == Some(flags_of(p[13]))
                &&& if be16(p, 0) == HTTP_PORT || be16(p, 2) == HTTP_PORT {
                    http_parsed(i.http_info, tcp_payload(p))
                } else {
                    i.http_info is None
                }
            } else if ip[9] == PROTO_UDP && p.len() >= 8 {
                i.source_port == Some(be16(p, 0)) && i.dest_port == Some(be16(p, 2)) && i.flags is None
                    && i.http_info is None
            } else {
                i.source_port is None && i.dest_port is None && i.flags is None && i.http_info is None
            }
        },
{
    if frame.len() < ETHERNET_HEADER_LEN + 20 {
        return None;
    }
    let ethertype = frame[12] as u16 * 256 + frame[13] as u16;
    if ethertype != ETHERTYPE_IPV4 {
        return None;
    }
    let ghost ip = ip_layer(frame@);
    let b = ETHERNET_HEADER_LEN;
    assert(frame@[b + 9] == ip[9]);
    assert(frame@[b + 12] == ip[12] && frame@[b + 13] == ip[13] && frame@[b + 14] == ip[14] && frame@[b + 15] == ip[15]);
    assert(frame@[b + 16] == ip[16] && frame@[b + 17] == ip[17] && frame@[b + 18] == ip[18] && frame@[b + 19] == ip[19]);
    let source_ip = ((frame[b + 12] as u32 * 256 + frame[b + 13] as u32) * 256 + frame[b + 14] as u32) * 256 + frame[b + 15] as u32;
    let dest_ip = ((frame[b + 16] as u32 * 256 + frame[b + 17] as u32) * 256 + frame[b + 18] as u32) * 256 + frame[b + 19] as u32;
    let protocol = frame[b + 9];
    let p = ip_payload(frame);
    let length = p.len();
    let mut info = PacketInfo {
        timestamp,
        source_ip,
        dest_ip,
        protocol,
        length,
        source_port: None,
        dest_port: None,
        flags: None,
        http_info: None,
    };
    if protocol == PROTO_TCP && p.len() >= 20 {
        let sport = p[0] as u16 * 256 + p[1] as u16;
        let dport = p[2] as u16 * 256 + p[3] as u16;
        info.source_port = Some(sport);
        info.dest_port = Some(dport);
        info.flags = Some(parse_tcp_flags(p[13]));
        if sport == HTTP_PORT || dport == HTTP_PORT {
            let payload = tcp_payload_of(&p);
            info.http_info = parse_http_request(payload.as_slice());
        }
    } else if protocol == PROTO_UDP && p.len() >= 8 {
        info.source_port = Some(p[0] as u16 * 256 + p[1] as u16);
        info.dest_port = Some(p[2] as u16 * 256 + p[3] as u16);
    }
    Some(info)
}

} // verus!
