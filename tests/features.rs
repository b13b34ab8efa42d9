use lobsterpot::features::{FeatureExtractor, parse_frame, ip_payload, byte_histogram, connection_key};

fn tcp_frame(dport: u16, flags: u8, payload: &[u8]) -> Vec<u8> {
    let mut f = vec![0u8; 14];
    f[12] = 0x08;
    let total = (20 + 20 + payload.len()) as u16;
    let mut ip = vec![0x45u8, 0, (total >> 8) as u8, total as u8, 0, 0, 0, 0, 64, 6, 0, 0, 10, 0, 0, 1, 10, 0, 0, 2];
    f.append(&mut ip);
    let mut tcp = vec![0u8; 20];
    tcp[0] = (12345u16 >> 8) as u8;
    tcp[1] = (12345u16 & 0xff) as u8;
    tcp[2] = (dport >> 8) as u8;
    tcp[3] = (dport & 0xff) as u8;
    tcp[12] = 0x50;
    tcp[13] = flags;
    tcp[14] = 0x04;
    tcp[15] = 0x00;
    f.append(&mut tcp);
    f.extend_from_slice(payload);
    f
}

fn udp_frame(dport: u16) -> Vec<u8> {
    let mut f = vec![0u8; 14];
    let total: u16 = 20 + 8;
    let mut ip = vec![0x45u8, 0, (total >> 8) as u8, total as u8, 0, 0, 0, 0, 64, 17, 0, 0, 192, 168, 1, 5, 8, 8, 8, 8];
    f.append(&mut ip);
    f.extend_from_slice(&[0x13, 0x88, (dport >> 8) as u8, (dport & 0xff) as u8, 0, 8, 0, 0]);
    f
}

#[test]
fn parse_tcp_frame_fields() {
    let f = tcp_frame(4444, 0x02, b"hello");
    let p = parse_frame(&f);
    assert_eq!(p.packet_size, 59);
    assert_eq!(p.header_size, 20);
    assert_eq!(p.payload_size, 39);
    assert_eq!(p.protocol, 6);
    assert!(p.is_tcp && !p.is_udp && !p.is_icmp);
    assert_eq!(p.source_port, 12345);
    assert_eq!(p.dest_port, 4444);
    assert_eq!(p.tcp_flags, Some(0x02));
    assert_eq!(p.window_size, Some(1024));
    assert_eq!(p.urgent_pointer, Some(0));
    assert!(!p.is_well_known_port);
    assert!(p.is_response);
    assert_eq!(p.packets_per_second, 0);
}

#[test]
fn parse_udp_frame_fields() {
    let p = parse_frame(&udp_frame(53));
    assert!(p.is_udp);
    assert_eq!(p.source_port, 5000);
    assert_eq!(p.dest_port, 53);
    assert!(p.is_well_known_port);
    assert_eq!(p.tcp_flags, None);
}

#[test]
fn short_frame_defaults() {
    let p = parse_frame(&[1, 2, 3, 4, 5, 6, 7, 8, 9, 10]);
    assert_eq!(p.packet_size, 10);
    assert_eq!(p.protocol, 0);
    assert!(!p.is_tcp);
    assert_eq!(p.header_size, 0);
    assert_eq!(ip_payload(&[1, 2, 3]).len(), 0);
}

#[test]
fn ip_payload_is_transport_segment() {
    let f = tcp_frame(80, 0x10, b"hello");
    let p = ip_payload(&f);
    assert_eq!(p.len(), 25);
    assert_eq!(&p[20..], b"hello");
}

#[test]
fn connection_key_of_tcp_frame() {
    let k = connection_key(&tcp_frame(80, 0x10, b"")).unwrap();
    assert_eq!(k.source_ip, 0x0a000001);
    assert_eq!(k.dest_ip, 0x0a000002);
    assert_eq!(k.source_port, 12345);
    assert_eq!(k.dest_port, 80);
    assert_eq!(k.protocol, 6);
}

#[test]
fn traffic_window_rates_and_eviction() {
    let mut fx = FeatureExtractor::new();
    let f = tcp_frame(4444, 0x02, b"hello");
    let a = fx.extract_features(&f, 0);
    assert_eq!(a.packets_per_second, 1);
    assert_eq!(a.bytes_per_second, 59);
    assert_eq!(a.avg_packet_size, 59);
    assert_eq!(a.connection_attempts, 1);
    let b = fx.extract_features(&f, 500);
    assert_eq!(b.packets_per_second, 2);
    assert_eq!(b.bytes_per_second, 118);
    assert_eq!(b.avg_packet_size, 59);
    assert_eq!(b.connection_attempts, 2);
    let c = fx.extract_features(&f, 2000);
    assert_eq!(c.packets_per_second, 1);
    assert_eq!(c.connection_attempts, 3);
    assert_eq!(fx.packet_history.len(), 1);
}

#[test]
fn connection_cleanup_drops_idle_flows() {
    let mut fx = FeatureExtractor::new();
    fx.extract_features(&tcp_frame(80, 0x10, b""), 0);
    fx.extract_features(&udp_frame(53), 100);
    fx.cleanup_old_connections(300000);
    assert_eq!(fx.connection_history.len(), 2);
    fx.cleanup_old_connections(300050);
    assert_eq!(fx.connection_history.len(), 1);
    let udp = connection_key(&udp_frame(53)).unwrap();
    let tcp = connection_key(&tcp_frame(80, 0x10, b"")).unwrap();
    assert_eq!(fx.connection_stats(&udp).unwrap().packet_count, 1);
    assert!(fx.connection_stats(&tcp).is_none());
}

#[test]
fn histogram_of_zero_payload() {
    let h = byte_histogram(&[0u8; 16]);
    assert_eq!(h.len(), 256);
    assert_eq!(h[0], 16);
    assert_eq!(h.iter().filter(|c| **c > 0).count(), 1);
    let e = byte_histogram(&[]);
    assert!(e.iter().all(|c| *c == 0));
    let m = byte_histogram(&[1, 2, 2, 255]);
    assert_eq!((m[1], m[2], m[255], m[3]), (1, 2, 1, 0));
}

#[test]
fn syn_ack_is_not_an_attempt() {
    let mut fx = FeatureExtractor::new();
    let a = fx.extract_features(&tcp_frame(4444, 0x12, b""), 0);
    assert_eq!(a.connection_attempts, 0);
    let b = fx.extract_features(&tcp_frame(4444, 0x02, b""), 1);
    assert_eq!(b.connection_attempts, 1);
    assert_eq!(fx.connection_history.len(), 1);
    let key = connection_key(&tcp_frame(4444, 0x02, b"")).unwrap();
    let st = fx.connection_stats(&key).unwrap();
    assert_eq!((st.packet_count, st.attempts, st.last_seen), (2, 1, 1));
}
