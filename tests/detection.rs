use lobsterpot::detector::{ThreatDetector, BlockReason, classify, categorize_threat, feed_threat, detect_threat, strongest_threat, FeedCache};
use lobsterpot::features::PacketFeatures;
use lobsterpot::reputation::{ReputationTracker, Incident, calculate_score};
use lobsterpot::rules::{RuleEngine, RuleInput, ActivityLog, PortScanRule, RateLimitRule, Rule, is_scanner_agent};
use lobsterpot::threat::{ThreatSeverity, ThreatCategory, Signal, ThreatInfo};
use lobsterpot::firewall::Firewall;

fn features(dest_port: u16, is_tcp: bool, entropy_milli: u32) -> PacketFeatures {
    PacketFeatures {
        packet_size: 60,
        payload_size: 40,
        header_size: 20,
        protocol: if is_tcp { 6 } else { 17 },
        is_tcp,
        is_udp: !is_tcp,
        is_icmp: false,
        source_port: 40000,
        dest_port,
        is_well_known_port: dest_port <= 1024,
        tcp_flags: if is_tcp { Some(0x10) } else { None },
        window_size: None,
        urgent_pointer: None,
        packets_per_second: 1,
        bytes_per_second: 60,
        avg_packet_size: 60,
        is_response: false,
        connection_attempts: 0,
        payload_entropy_milli: entropy_milli,
    }
}

fn incident(t: u64, sev: u32) -> Incident {
    Incident { timestamp: t, severity: sev, reason: "test".to_string() }
}

#[test]
fn suspicious_port_is_flagged_and_benign_is_not() {
    let mut d = ThreatDetector::new(700);
    let hit = d.analyze_packet(0x0a000001, &features(4444, true, 1000), None, None, 100, 10).unwrap();
    assert_eq!(hit.source, Signal::RuleEngine);
    assert_eq!(hit.category, ThreatCategory::Intrusion);
    assert_eq!(hit.severity, ThreatSeverity::High);
    assert_eq!(hit.confidence, 900);
    assert!(d.is_blocked_ip(0x0a000001));
    assert_eq!(d.reputation_tracker.get_reputation(0x0a000001, 10), 500);
    let none = d.analyze_packet(0x0a000002, &features(443, true, 1000), None, None, 100, 10);
    assert!(none.is_none());
    assert!(!d.is_blocked_ip(0x0a000002));
}

#[test]
fn blocked_address_wins_over_benign_signals() {
    let mut d = ThreatDetector::new(700);
    d.block(0x0a000009, BlockReason::ManualBlock);
    let r = d.analyze_packet(0x0a000009, &features(443, true, 0), None, None, 0, 5).unwrap();
    assert_eq!(r.source, Signal::BlockList);
    assert_eq!(r.severity, ThreatSeverity::High);
    assert_eq!(r.confidence, 1000);
    assert_eq!(r.category, ThreatCategory::Other("Previously Blocked".to_string()));
}

#[test]
fn feed_hit_takes_precedence_over_rules() {
    let mut d = ThreatDetector::new(700);
    let feed = feed_threat(true, Some("botnet".to_string()), None);
    let r = d.analyze_packet(1, &features(4444, true, 0), None, feed, 0, 0).unwrap();
    assert_eq!(r.source, Signal::ThreatFeed);
    assert_eq!(r.category, ThreatCategory::BotNet);
    assert_eq!(r.confidence, 800);
}

#[test]
fn bad_reputation_and_anomaly_paths() {
    let mut d = ThreatDetector::new(700);
    d.reputation_tracker.update_reputation(7, incident(0, 800));
    let r = d.analyze_packet(7, &features(443, true, 0), None, None, 0, 10).unwrap();
    assert_eq!(r.source, Signal::Reputation);
    assert_eq!(r.severity, ThreatSeverity::Medium);
    assert_eq!(r.confidence, 800);
    let a = d.analyze_packet(8, &features(443, true, 0), None, None, 900, 10).unwrap();
    assert_eq!(a.source, Signal::Anomaly);
    assert_eq!(a.confidence, 900);
}

#[test]
fn classify_fusion_order() {
    let rule = Some(ThreatInfo { severity: ThreatSeverity::Low, category: ThreatCategory::Spam, confidence: 10, source: Signal::RuleEngine, details: String::new() });
    assert_eq!(classify(false, None, rule.clone(), 1000, 0, 500).unwrap().category, ThreatCategory::Spam);
    assert_eq!(classify(true, None, rule, 1000, 0, 500).unwrap().source, Signal::BlockList);
    assert!(classify(false, None, None, 300, 500, 500).is_none());
    assert_eq!(classify(false, None, None, 299, 0, 500).unwrap().confidence, 701);
    assert_eq!(classify(false, None, None, 1000, 5000, 500).unwrap().confidence, 1000);
}

#[test]
fn categorize_feed_types() {
    assert_eq!(categorize_threat(Some("malware".to_string())), ThreatCategory::Malware);
    assert_eq!(categorize_threat(Some("phishing".to_string())), ThreatCategory::Phishing);
    assert_eq!(categorize_threat(Some("scanner".to_string())), ThreatCategory::Scanner);
    assert_eq!(categorize_threat(Some("spam".to_string())), ThreatCategory::Spam);
    assert_eq!(categorize_threat(Some("weird".to_string())), ThreatCategory::Other("weird".to_string()));
    assert_eq!(categorize_threat(None), ThreatCategory::Other("Unknown".to_string()));
    assert!(feed_threat(false, None, Some(3)).is_none());
    assert_eq!(feed_threat(true, None, Some(350)).unwrap().confidence, 350);
}

#[test]
fn heuristics_of_detect_threat() {
    assert!(detect_threat(&features(4444, true, 0)));
    assert!(detect_threat(&features(31337, false, 0)));
    assert!(detect_threat(&features(443, false, 7501)));
    assert!(!detect_threat(&features(443, false, 7500)));
    let mut big = features(443, true, 0);
    big.packet_size = 10001;
    assert!(detect_threat(&big));
    big.is_tcp = false;
    assert!(!detect_threat(&big));
}

#[test]
fn port_scan_and_rate_limit_rules() {
    let engine = RuleEngine::new();
    let mut log = ActivityLog::new();
    for t in 0..101u64 {
        log.record(5, t % 50, true);
    }
    let input = RuleInput { features: features(443, true, 0), source_ip: 5, now: 50, agent_suspicious: false };
    let r = engine.check_packet(&input, &log).unwrap();
    assert_eq!(r.category, ThreatCategory::Scanner);
    let quiet = RuleInput { features: features(443, true, 0), source_ip: 6, now: 50, agent_suspicious: false };
    assert!(engine.check_packet(&quiet, &log).is_none());
    let late = RuleInput { features: features(443, true, 0), source_ip: 5, now: 200, agent_suspicious: false };
    assert!(engine.check_packet(&late, &log).is_none());
    let mut busy = ActivityLog::new();
    for _ in 0..1001 {
        busy.record(9, 10, false);
    }
    let rate = RuleInput { features: features(443, true, 0), source_ip: 9, now: 10, agent_suspicious: false };
    assert_eq!(engine.check_packet(&rate, &busy).unwrap().category, ThreatCategory::DDoS);
    let ps = Rule::PortScan(PortScanRule::new(2, 60));
    let rl = Rule::RateLimit(RateLimitRule::new(5, 60));
    assert!(ps.check(&input, &log).is_some());
    assert!(rl.check(&rate, &busy).is_some());
    busy.prune(100, 60);
    assert_eq!(busy.events.len(), 0);
}

#[test]
fn reputation_scores() {
    let mut t = ReputationTracker::new();
    assert_eq!(t.get_reputation(1, 0), 1000);
    t.update_reputation(1, incident(0, 200));
    assert_eq!(t.get_reputation(1, 0), 800);
    t.update_reputation(1, incident(10, 900));
    assert_eq!(t.get_reputation(1, 10), 0);
    assert_eq!(t.get_reputation(1, 3599), 0);
    assert_eq!(t.get_reputation(1, 3605), 100);
    assert_eq!(t.get_reputation(1, 3610), 1000);
    assert_eq!(t.get_reputation(2, 0), 1000);
    assert_eq!(calculate_score(&vec![incident(0, 300), incident(5, 300)], 10), 400);
}

#[test]
fn reputation_never_rises_on_incident() {
    let mut t = ReputationTracker::new();
    let mut last = t.get_reputation(3, 100);
    for sev in [0u32, 100, 50, 2000, 10] {
        t.update_reputation(3, incident(100, sev));
        let now = t.get_reputation(3, 100);
        assert!(now <= last);
        assert!(now <= 1000);
        last = now;
    }
}

#[test]
fn blocking_twice_is_idempotent() {
    let mut fw = Firewall::new();
    assert!(fw.block_ip(0x01020304));
    assert!(!fw.block_ip(0x01020304));
    assert_eq!(fw.blocked, vec![0x01020304]);
    assert!(fw.is_blocked(0x01020304));
    assert!(!fw.is_blocked(0x01020305));
    assert!(fw.update_rules().is_ok());
    assert!(fw.block_ip(7));
    assert!(fw.unblock_ip(0x01020304));
    assert!(!fw.unblock_ip(0x01020304));
    assert_eq!(fw.blocked, vec![7]);
    assert!(fw.block_ip(0x01020304));
}

#[test]
fn severity_order() {
    assert!(ThreatSeverity::Critical.at_least(&ThreatSeverity::High));
    assert!(!ThreatSeverity::Low.at_least(&ThreatSeverity::Medium));
    assert_eq!(ThreatSeverity::Medium.level(), 1);
}

#[test]
fn strongest_feed_report_wins() {
    let mk = |c: u32, cat: ThreatCategory| ThreatInfo { severity: ThreatSeverity::High, category: cat, confidence: c, source: Signal::ThreatFeed, details: String::new() };
    assert!(strongest_threat(vec![]).is_none());
    let r = strongest_threat(vec![mk(300, ThreatCategory::Spam), mk(900, ThreatCategory::Malware), mk(500, ThreatCategory::Phishing)]).unwrap();
    assert_eq!(r.category, ThreatCategory::Malware);
    let tie = strongest_threat(vec![mk(900, ThreatCategory::Spam), mk(900, ThreatCategory::BotNet)]).unwrap();
    assert_eq!(tie.category, ThreatCategory::BotNet);
}

#[test]
fn feed_cache_expires_after_an_hour() {
    let mut cache = FeedCache::new();
    assert!(cache.lookup(1, 0).is_none());
    cache.store(1, 100, feed_threat(true, Some("spam".to_string()), None));
    cache.store(2, 100, None);
    assert_eq!(cache.lookup(1, 3699).unwrap().as_ref().unwrap().category, ThreatCategory::Spam);
    assert!(cache.lookup(2, 200).unwrap().is_none());
    assert!(cache.lookup(1, 3700).is_none());
    cache.store(1, 4000, None);
    assert_eq!(cache.entries.len(), 2);
    assert!(cache.lookup(1, 4001).unwrap().is_none());
}

#[test]
fn verdicts_record_reasons_and_incidents() {
    let mut d = ThreatDetector::new(700);
    let feed = Some(ThreatInfo { severity: ThreatSeverity::Critical, category: ThreatCategory::Malware, confidence: 5000, source: Signal::ThreatFeed, details: "feed details".to_string() });
    let r = d.analyze_packet(11, &features(443, true, 0), None, feed, 0, 0).unwrap();
    assert_eq!(r.confidence, 1000);
    assert_eq!(d.block_reason(11), Some(BlockReason::ThreatFeed("feed details".to_string())));
    assert_eq!(d.blocked_ips.len(), 1);
    assert_eq!(d.reputation_tracker.get_reputation(11, 0), 0);
    let again = d.analyze_packet(11, &features(443, true, 0), None, None, 0, 1).unwrap();
    assert_eq!(again.source, Signal::BlockList);
    assert_eq!(d.blocked_ips.len(), 1);
    d.analyze_packet(12, &features(4444, true, 0), None, None, 0, 2).unwrap();
    assert_eq!(d.block_reason(12), Some(BlockReason::RuleViolation("suspicious destination port".to_string())));
    assert_eq!(d.block_reason(13), None);
    assert_eq!(feed_threat(true, None, Some(4000)).unwrap().confidence, 1000);
    assert!(d.analyze_packet(13, &features(443, true, 0), None, None, 0, 2).is_none());
    assert_eq!(d.reputation_tracker.get_reputation(13, 2), 1000);
}

#[test]
fn scanner_user_agent_rule() {
    assert!(is_scanner_agent("sqlmap/1.7#stable"));
    assert!(is_scanner_agent("Mozilla/5.0 (compatible; Nmap Scripting Engine) nmap"));
    assert!(is_scanner_agent("masscan/1.3"));
    assert!(!is_scanner_agent("Mozilla/5.0"));
    assert!(!is_scanner_agent(""));
    let mut d = ThreatDetector::new(700);
    let r = d.analyze_packet(21, &features(443, true, 0), Some("nikto/2.5"), None, 0, 0).unwrap();
    assert_eq!(r.source, Signal::RuleEngine);
    assert_eq!(r.category, ThreatCategory::Scanner);
    assert_eq!(r.confidence, 700);
    assert!(d.analyze_packet(22, &features(443, true, 0), Some("curl/8.0"), None, 0, 0).is_none());
}

#[test]
fn reputation_is_read_over_the_last_hour() {
    let mut t = ReputationTracker::new();
    t.update_reputation(4, incident(0, 500));
    assert_eq!(t.get_reputation(4, 0), 500);
    let before = t.get_reputation(4, 7200);
    assert_eq!(before, 1000);
    t.update_reputation(4, incident(7200, 1));
    assert_eq!(t.get_reputation(4, 7200), 999);
    assert!(t.get_reputation(4, 7200) <= before);
    let mut d = ThreatDetector::new(700);
    d.reputation_tracker.update_reputation(5, incident(0, 800));
    assert_eq!(d.reputation_tracker.get_reputation(5, 0), 200);
    assert!(d.analyze_packet(5, &features(443, true, 0), None, None, 0, 7200).is_none());
}
