use lobsterpot::packet::packet_info;
use lobsterpot::monitor::{monitor_step, MonitorState, RETRAIN_EVERY};
use lobsterpot::http::{parse_http_request, parse_http_text, parse_tcp_flags};
use lobsterpot::messaging::{KafkaConfig, MessageType};
use lobsterpot::mutations::case_mutations;
use lobsterpot::sequences::{generate_fibonacci, generate_lucas};
use lobsterpot::threat::{ThreatStatus, IndicatorType};

#[test]
fn http_request_fields() {
    let r = parse_http_request(b"GET /index.html HTTP/1.1\r\nHost: example.com\r\nUser-Agent: curl/8.0\r\n\r\n").unwrap();
    assert_eq!(r.method.as_deref(), Some("GET"));
    assert_eq!(r.path.as_deref(), Some("/index.html"));
    assert_eq!(r.host.as_deref(), Some("example.com"));
    assert_eq!(r.user_agent.as_deref(), Some("curl/8.0"));
    let p = parse_http_request(b"POST  /api   HTTP/1.0\nHost: a\nHost: b").unwrap();
    assert_eq!(p.path.as_deref(), Some("/api"));
    assert_eq!(p.host.as_deref(), Some("b"));
    assert_eq!(p.user_agent, None);
}

#[test]
fn http_request_rejections() {
    assert!(parse_http_request(b"PUT / HTTP/1.1\r\n").is_none());
    assert!(parse_http_request(b"GET").is_none());
    assert!(parse_http_request(b"").is_none());
    assert!(parse_http_request(&[0xff, 0xfe]).is_none());
}

#[test]
fn tcp_flag_bits() {
    let f = parse_tcp_flags(0x12);
    assert!(f.syn && f.ack && !f.fin && !f.rst && !f.psh && !f.urg);
    let g = parse_tcp_flags(0x2d);
    assert!(g.fin && g.rst && g.psh && g.urg && !g.syn && !g.ack);
}

#[test]
fn fibonacci_and_lucas() {
    assert_eq!(generate_fibonacci(10), vec!["0", "1", "1", "2", "3", "5", "8", "13", "21", "34"]);
    assert_eq!(generate_fibonacci(0).len(), 0);
    assert_eq!(generate_fibonacci(47)[46], "1836311903");
    assert_eq!(generate_lucas(5), vec!["2", "1", "3", "4", "7"]);
    assert_eq!(generate_lucas(1), vec!["2"]);
}

#[test]
fn case_variants() {
    assert_eq!(case_mutations("ab"), vec!["ab", "Ab", "aB", "AB"]);
    assert_eq!(case_mutations(""), vec![""]);
    assert_eq!(case_mutations("A1"), vec!["a1", "A1", "a1", "A1"]);
    assert_eq!(case_mutations("pass").len(), 16);
}

#[test]
fn kafka_config_fields() {
    let c = KafkaConfig::new("localhost:9092", "grp", vec!["threat_feed".to_string()], "node1");
    assert_eq!(c.bootstrap_servers, "localhost:9092");
    assert_eq!(c.group_id, "grp");
    assert_eq!(c.topics, vec!["threat_feed".to_string()]);
    assert_eq!(c.client_id, "node1");
    assert_ne!(MessageType::ThreatFeed, MessageType::ModelUpdate);
    assert_ne!(ThreatStatus::Active, ThreatStatus::Mitigated);
    assert_eq!(IndicatorType::IP, IndicatorType::IP);
}

fn http_frame() -> Vec<u8> {
    let body = b"GET /login HTTP/1.1\r\nHost: victim.local\r\nUser-Agent: sqlmap/1.7\r\n\r\n";
    let mut f = vec![0u8; 12];
    f.extend_from_slice(&[0x08, 0x00]);
    let total = (20 + 24 + body.len()) as u16;
    f.extend_from_slice(&[0x45, 0, (total >> 8) as u8, total as u8, 0, 0, 0, 0, 64, 6, 0, 0, 192, 168, 0, 10, 192, 168, 0, 1]);
    let mut tcp = vec![0u8; 24];
    tcp[0] = 0xc3;
    tcp[1] = 0x50;
    tcp[2] = 0;
    tcp[3] = 80;
    tcp[12] = 0x60;
    tcp[13] = 0x18;
    f.extend_from_slice(&tcp);
    f.extend_from_slice(body);
    f
}

#[test]
fn packet_info_of_http_frame() {
    let f = http_frame();
    let info = packet_info(&f, 1700000000).unwrap();
    assert_eq!(info.timestamp, 1700000000);
    assert_eq!(info.source_ip, 0xc0a8000a);
    assert_eq!(info.dest_ip, 0xc0a80001);
    assert_eq!(info.protocol, 6);
    assert_eq!(info.length, f.len() - 34);
    assert_eq!(info.source_port, Some(50000));
    assert_eq!(info.dest_port, Some(80));
    let flags = info.flags.unwrap();
    assert!(flags.psh && flags.ack && !flags.syn);
    let http = info.http_info.unwrap();
    assert_eq!(http.path.as_deref(), Some("/login"));
    assert_eq!(http.host.as_deref(), Some("victim.local"));
    assert_eq!(http.user_agent.as_deref(), Some("sqlmap/1.7"));
}

#[test]
fn packet_info_rejects_non_ipv4() {
    let mut f = http_frame();
    f[12] = 0x86;
    f[13] = 0xdd;
    assert!(packet_info(&f, 0).is_none());
    assert!(packet_info(&[0u8; 20], 0).is_none());
    let mut other = http_frame();
    other[36] = 0;
    other[37] = 81;
    let info = packet_info(&other, 0).unwrap();
    assert!(info.http_info.is_none());
}

#[test]
fn http_text_fields() {
    let r = parse_http_text("POST /upload HTTP/1.1\nUser-Agent: nikto").unwrap();
    assert_eq!(r.method.as_deref(), Some("POST"));
    assert_eq!(r.path.as_deref(), Some("/upload"));
    assert_eq!(r.host, None);
    assert_eq!(r.user_agent.as_deref(), Some("nikto"));
    assert!(parse_http_text("GET\n/x").is_none());
}

#[test]
fn monitor_batches_and_cleanups() {
    let mut st = MonitorState::new();
    let a = monitor_step(&mut st, true, vec![1]);
    assert!(!a.retrain && !a.cleanup);
    assert_eq!(st.batch.len(), 0);
    assert_eq!(st.seen, 1);
    for i in 0..RETRAIN_EVERY - 1 {
        let r = monitor_step(&mut st, false, vec![i as i64]);
        assert!(!r.retrain);
    }
    let last = monitor_step(&mut st, false, vec![7]);
    assert!(last.retrain);
    assert_eq!(st.take_batch().len(), RETRAIN_EVERY);
    assert_eq!(st.batch.len(), 0);
    st.seen = 9999;
    assert!(monitor_step(&mut st, true, vec![]).cleanup);
}
