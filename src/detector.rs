use vstd::prelude::*;
use dashmap::DashMap;
use crate::features::PacketFeatures;
use crate::reputation::{ReputationTracker, Incident, score_at};
use crate::rules::{RuleEngine, RuleInput, ActivityLog, first_match, reports};
use crate::threat::{ThreatSeverity, ThreatCategory, Signal, ThreatInfo};

verus! {

/// Addresses scoring below this (thousandths) are flagged for reputation.
pub const REPUTATION_THRESHOLD: u32 = 300;
/// Confidence given to a feed hit that reports none (thousandths).
pub const DEFAULT_FEED_CONFIDENCE: u32 = 800;
/// Seconds of source history that the detector keeps for its rules.
pub const ACTIVITY_KEEP_SECS: u64 = 3600;

#[verifier::external_type_specification]
#[verifier::external_body]
#[verifier::reject_recursive_types(K)]
#[verifier::reject_recursive_types(V)]
#[verifier::reject_recursive_types(S)]
pub struct ExDashMap<K, V, S>(DashMap<K, V, S>);

/// A block list: address (IPv4 number) to the reason it was blocked.
pub type BlockTable = DashMap<u32, BlockReason>;

/// The entries of a block list: address to reason.
pub uninterp spec fn block_entries(m: BlockTable) -> Map<u32, BlockReason>;

/// Relies on `DashMap::new`: an empty map.
#[verifier::external_body]
fn block_table_new() -> (r: BlockTable)
    ensures
        block_entries(r).dom() == Set::<u32>::empty(),
{
    DashMap::new()
}

/// Relies on `DashMap::contains_key`: whether the key has an entry.
#[verifier::external_body]
fn block_table_contains(m: &BlockTable, addr: u32) -> (r: bool)
    ensures
        r == block_entries(*m).dom().contains(addr),
{
    m.contains_key(&addr)
}

/// Relies on `DashMap::insert`: the key now maps to the value, other
/// entries stay.
#[verifier::external_body]
fn block_table_insert(m: &mut BlockTable, addr: u32, reason: BlockReason)
    ensures
        block_entries(*final(m)) == block_entries(*old(m)).insert(addr, reason),
{
    m.insert(addr, reason);
}

/// Relies on `DashMap::get` and the derived `Clone` of `BlockReason`: a
/// copy of the key's entry (same variant, text and number), if any.
#[verifier::external_body]
fn block_table_get(m: &BlockTable, addr: u32) -> (r: Option<BlockReason>)
    ensures
        r is Some == block_entries(*m).dom().contains(addr),
        r is Some ==> reason_view(r.unwrap()) == reason_view(block_entries(*m)[addr]),
{
    m.get(&addr).map(|e| e.value().clone())
}

/// Why an address was put on the block list; a feed hit and a rule
/// violation carry the report's details.
#[derive(Clone, Debug, PartialEq, Eq)]
pub enum BlockReason {
    ThreatFeed(String),
    RuleViolation(String),
    BadReputation(u32),
    AnomalousTraffic,
    ManualBlock,
}

/// A block reason as plain values: variant (in declaration order), text
/// and number.
pub open spec fn reason_view(r: BlockReason) -> (nat, Seq<char>, u32) {
    match r {
        BlockReason::ThreatFeed(d) => (0, d@, 0),
        BlockReason::RuleViolation(d) => (1, d@, 0),
        BlockReason::BadReputation(s) => (2, Seq::empty(), s),
        BlockReason::AnomalousTraffic => (3, Seq::empty(), 0),
        BlockReason::ManualBlock => (4, Seq::empty(), 0),
    }
}

/// The signal that decides, in order of trust: block list, threat feed,
/// rules, reputation below the threshold, anomaly score above the cutoff.
pub open spec fn fused_signal(blocked: bool, feed_hit: bool, rule_hit: bool, reputation: nat, anomaly: u32, cutoff: u32) -> Option<Signal> {
    if blocked {
        Some(Signal::BlockList)
    } else if feed_hit {
        Some(Signal::ThreatFeed)
    } else if rule_hit {
        Some(Signal::RuleEngine)
    } else if reputation < REPUTATION_THRESHOLD {
        Some(Signal::Reputation)
    } else if anomaly > cutoff {
        Some(Signal::Anomaly)
    } else {
        None
    }
}

/// `t` with its confidence cut at 1000.
pub open spec fn capped(t: ThreatInfo) -> ThreatInfo {
    ThreatInfo { confidence: if t.confidence > 1000 { 1000 } else { t.confidence }, ..t }
}

fn cap_confidence(t: ThreatInfo) -> (r: ThreatInfo)
    ensures
        r == capped(t),
{
    let mut t = t;
    if t.confidence > 1000 {
        t.confidence = 1000;
    }
    t
}

/// The report for each signal: the feed's and the rule's own reports (with
/// confidence cut at 1000); for
/// the block list High with full confidence; for reputation Medium with
/// confidence `1000 - reputation`; for an anomaly Medium with the score
/// (at most 1000) as confidence.
pub open spec fn fused_report(
    r: ThreatInfo,
    signal: Signal,
    feed: Option<ThreatInfo>,
    rule: Option<ThreatInfo>,
    reputation: nat,
    anomaly: u32,
) -> bool {
    match signal {
        Signal::BlockList => r.severity == ThreatSeverity::High && r.confidence == 1000 && r.source == Signal::BlockList
            && r.category is Other,
        Signal::ThreatFeed => r == capped(feed.unwrap()),
        Signal::RuleEngine => r == capped(rule.unwrap()),
        Signal::Reputation => r.severity == ThreatSeverity::Medium && r.confidence == 1000 - reputation
            && r.source == Signal::Reputation && r.category is Other,
        Signal::Anomaly => r.severity == ThreatSeverity::Medium
            && r.confidence == (if anomaly > 1000 { 1000 } else { anomaly }) && r.source == Signal::Anomaly
            && r.category is Other,
    }
}

/// Fuses the signals about one packet's source; the first positive one wins.
pub fn classify(
    blocked: bool,
    feed: Option<ThreatInfo>,
    rule: Option<ThreatInfo>,
    reputation: u32,
    anomaly: u32,
    cutoff: u32,
) -> (r: Option<ThreatInfo>)
    requires
        reputation <= 1000,
    ensures
        r is Some == fused_signal(blocked, feed is Some, rule is Some, reputation as nat, anomaly, cutoff) is Some,
        r is Some ==> fused_report(
            r.unwrap(),
            fused_signal(blocked, feed is Some, rule is Some, reputation as nat, anomaly, cutoff).unwrap(),
            feed,
            rule,
            reputation as nat,
            anomaly,
        ),
        r is Some ==> r.unwrap().confidence <= 1000,
{
    if blocked {
        return Some(ThreatInfo {
            severity: ThreatSeverity::High,
            category: ThreatCategory::Other("Previously Blocked".to_string()),
            confidence: 1000,
            source: Signal::BlockList,
            details: "source address is blocked".to_string(),
        });
    }
    match feed {
        Some(t) => {
            return Some(cap_confidence(t));
        },
        None => {},
    }
    match rule {
        Some(t) => {
            return Some(cap_confidence(t));
        },
        None => {},
    }
    if reputation < REPUTATION_THRESHOLD {
        return Some(ThreatInfo {
            severity: ThreatSeverity::Medium,
            category: ThreatCategory::Other("Bad Reputation".to_string()),
            confidence: 1000 - reputation,
            source: Signal::Reputation,
            details: "source address has a poor reputation".to_string(),
        });
    }
    if anomaly > cutoff {
        return Some(ThreatInfo {
            severity: ThreatSeverity::Medium,
            category: ThreatCategory::Other("Anomalous Traffic".to_string()),
            confidence: if anomaly > 1000 { 1000 } else { anomaly },
            source: Signal::Anomaly,
            details: "anomaly score above cutoff".to_string(),
        });
    }
    None
}

/// `c` is the category that a feed's threat type names: the five known
/// names map to their categories, another name to `Other` with that label,
/// and no type to `Other("Unknown")`.
pub open spec fn names_category(c: ThreatCategory, threat_type: Option<Seq<char>>) -> bool {
    match threat_type {
        Some(t) => if t == "malware"@ {
            c == ThreatCategory::Malware
        } else if t == "phishing"@ {
            c == ThreatCategory::Phishing
        } else if t == "botnet"@ {
            c == ThreatCategory::BotNet
        } else if t == "scanner"@ {
            c == ThreatCategory::Scanner
        } else if t == "spam"@ {
            c == ThreatCategory::Spam
        } else {
            c is Other && c->Other_0@ == t
        },
        None => c is Other && c->Other_0@ == "Unknown"@,
    }
}

pub open spec fn opt_view(t: Option<String>) -> Option<Seq<char>> {
    match t {
        Some(s) => Some(s@),
        None => None,
    }
}

fn text_is(s: &String, lit: &str) -> (r: bool)
    ensures
        r == (s@ == lit@),
{
    let l = lit.to_string();
    *s == l
}

/// Maps a threat feed's threat type to a category.
pub fn categorize_threat(threat_type: Option<String>) -> (r: ThreatCategory)
    ensures
        names_category(r, opt_view(threat_type)),
{
    match threat_type {
        Some(t) => {
            if text_is(&t, "malware") {
                ThreatCategory::Malware
            } else if text_is(&t, "phishing") {
                ThreatCategory::Phishing
            } else if text_is(&t, "botnet") {
                ThreatCategory::BotNet
            } else if text_is(&t, "scanner") {
                ThreatCategory::Scanner
            } else if text_is(&t, "spam") {
                ThreatCategory::Spam
            } else {
                ThreatCategory::Other(t)
            }
        },
        None => ThreatCategory::Other("Unknown".to_string()),
    }
}

/// The report made from a threat feed's answer: a listed address is a High
/// threat of the named category, with the feed's confidence (cut at 1000)
/// or 800.
pub fn feed_threat(blacklisted: bool, threat_type: Option<String>, confidence: Option<u32>) -> (r: Option<ThreatInfo>)
    ensures
        r is Some == blacklisted,
        r is Some ==> {
            let t = r.unwrap();
            &&& t.severity == ThreatSeverity::High
            &&& names_category(t.category, opt_view(threat_type))
            &&& t.confidence == match confidence {
                Some(c) => if c > 1000 { 1000 } else { c },
                None => DEFAULT_FEED_CONFIDENCE,
            }
            &&& t.source == Signal::ThreatFeed
        },
{
    if !blacklisted {
        return None;
    }
    let confidence = match confidence {
        Some(c) => if c > 1000 { 1000 } else { c },
        None => DEFAULT_FEED_CONFIDENCE,
    };
    Some(ThreatInfo {
        severity: ThreatSeverity::High,
        category: categorize_threat(threat_type),
        confidence,
        source: Signal::ThreatFeed,
        details: "address listed by threat feed".to_string(),
    })
}

/// What an incident of each severity costs a reputation (thousandths).
pub open spec fn severity_penalty(s: ThreatSeverity) -> u32 {
    match s {
        ThreatSeverity::Low => 100,
        ThreatSeverity::Medium => 250,
        ThreatSeverity::High => 500,
        ThreatSeverity::Critical => 1000,
    }
}

fn penalty_of(s: ThreatSeverity) -> (r: u32)
    ensures
        r == severity_penalty(s),
{
    match s {
        ThreatSeverity::Low => 100,
        ThreatSeverity::Medium => 250,
        ThreatSeverity::High => 500,
        ThreatSeverity::Critical => 1000,
    }
}

/// The packet is a SYN without ACK.
pub open spec fn syn_without_ack(f: PacketFeatures) -> bool {
    match f.tcp_flags {
        Some(fl) => fl & 0x02 != 0 && fl & 0x10 == 0,
        None => false,
    }
}

/// Fuses block list, threat feed, rules, reputation and anomaly score into
/// one verdict per packet, and remembers flagged sources.
pub struct ThreatDetector {
    pub rule_engine: RuleEngine,
    pub reputation_tracker: ReputationTracker,
    pub blocked_ips: BlockTable,
    pub activity: ActivityLog,
    pub anomaly_cutoff: u32,
}

impl ThreatDetector {
    pub open spec fn wf(&self) -> bool {
        self.reputation_tracker.wf()
    }

    pub open spec fn is_blocked(&self, addr: u32) -> bool {
        block_entries(self.blocked_ips).dom().contains(addr)
    }

    /// A detector with the default rules, no history, and the given anomaly
    /// cutoff (thousandths).
    pub fn new(anomaly_cutoff: u32) -> (r: Self)
        ensures
            r.wf(),
            r.rule_engine.rules@ == RuleEngine::new_spec_rules(),
            block_entries(r.blocked_ips).dom() == Set::<u32>::empty(),
            r.activity.events@.len() == 0,
            crate::reputation::score_entries(r.reputation_tracker.scores).dom() == Set::<u32>::empty(),
            r.anomaly_cutoff == anomaly_cutoff,
    {
        ThreatDetector {
            rule_engine: RuleEngine::new(),
            reputation_tracker: ReputationTracker::new(),
            blocked_ips: block_table_new(),
            activity: ActivityLog::new(),
            anomaly_cutoff,
        }
    }

    pub fn is_blocked_ip(&self, addr: u32) -> (r: bool)
        ensures
            r == self.is_blocked(addr),
    {
        block_table_contains(&self.blocked_ips, addr)
    }

    /// Why `addr` is on the block list, if it is.
    pub fn block_reason(&self, addr: u32) -> (r: Option<BlockReason>)
        ensures
            r is Some == self.is_blocked(addr),
            r is Some ==> reason_view(r.unwrap()) == reason_view(block_entries(self.blocked_ips)[addr]),
    {
        block_table_get(&self.blocked_ips, addr)
    }

    /// Puts `addr` on the block list with `reason`, unless it is there already.
    pub fn block(&mut self, addr: u32, reason: BlockReason)
        ensures
            old(self).is_blocked(addr) ==> block_entries(final(self).blocked_ips) == block_entries(old(self).blocked_ips),
            !old(self).is_blocked(addr) ==> block_entries(final(self).blocked_ips)
                == block_entries(old(self).blocked_ips).insert(addr, reason),
            final(self).rule_engine == old(self).rule_engine,
            final(self).reputation_tracker == old(self).reputation_tracker,
            final(self).activity == old(self).activity,
            final(self).anomaly_cutoff == old(self).anomaly_cutoff,
    {
        if !self.is_blocked_ip(addr) {
            block_table_insert(&mut self.blocked_ips, addr, reason);
        }
    }

    /// Classifies one packet from `source_ip` at `now` (seconds), given what
    /// the threat feed answered for the source and the packet's anomaly score
    /// (thousandths). The packet joins the source's history first. Any
    /// positive verdict records an incident of the report's severity for the
    /// source, and a source not yet blocked goes on the block list with the
    /// reason of the deciding signal.
    pub fn analyze_packet(
        &mut self,
        source_ip: u32,
        features: &PacketFeatures,
        user_agent: Option<&str>,
        feed_hit: Option<ThreatInfo>,
        anomaly: u32,
        now: u64,
    ) -> (r: Option<ThreatInfo>)
        requires
            old(self).wf(),
        ensures
            final(self).wf(),
            final(self).activity.events@ == old(self).activity.events@.push((source_ip, now, syn_without_ack(*features))),
            final(self).rule_engine == old(self).rule_engine,
            final(self).anomaly_cutoff == old(self).anomaly_cutoff,
            ({
                let input = RuleInput { features: *features, source_ip, now, agent_suspicious: agent_flag(user_agent) };
                let rule = first_match(old(self).rule_engine.rules@, input, final(self).activity.events@);
                let reputation = old(self).reputation_tracker.reputation_at(source_ip, now);
                let sig = fused_signal(old(self).is_blocked(source_ip), feed_hit is Some, rule is Some, reputation, anomaly, old(self).anomaly_cutoff);
                &&& r is Some == sig is Some
                &&& sig == Some(Signal::ThreatFeed) ==> r == Some(capped(feed_hit.unwrap()))
                &&& sig == Some(Signal::RuleEngine) ==> reports(r.unwrap(), rule.unwrap())
                &&& (sig == Some(Signal::BlockList) || sig == Some(Signal::Reputation) || sig == Some(Signal::Anomaly))
                    ==> fused_report(r.unwrap(), sig.unwrap(), feed_hit, None, reputation, anomaly)
                &&& sig is None || sig == Some(Signal::BlockList)
                    ==> block_entries(final(self).blocked_ips) == block_entries(old(self).blocked_ips)
                &&& sig is Some && sig != Some(Signal::BlockList) ==> exists|reason: BlockReason| {
                    &&& block_entries(final(self).blocked_ips) == block_entries(old(self).blocked_ips).insert(source_ip, reason)
                    &&& reason_view(reason) == block_reason_for(sig.unwrap(), r.unwrap().details@, reputation)
                }
            }),
            r is Some ==> r.unwrap().confidence <= 1000,
            old(self).is_blocked(source_ip) ==> r is Some && r.unwrap().source == Signal::BlockList,
            r is Some ==> final(self).is_blocked(source_ip),
            r is None ==> crate::reputation::score_entries(final(self).reputation_tracker.scores)
                == crate::reputation::score_entries(old(self).reputation_tracker.scores),
            r is Some ==> {
                let t = r.unwrap();
                &&& final(self).reputation_tracker.incidents_of(source_ip).len() == old(self).reputation_tracker.incidents_of(source_ip).len() + 1
                &&& final(self).reputation_tracker.incidents_of(source_ip).drop_last() == old(self).reputation_tracker.incidents_of(source_ip)
                &&& final(self).reputation_tracker.incidents_of(source_ip).last().severity == severity_penalty(t.severity)
                &&& final(self).reputation_tracker.incidents_of(source_ip).last().timestamp == now
            },
            forall|a: u32| a != source_ip ==> final(self).reputation_tracker.incidents_of(a) == old(self).reputation_tracker.incidents_of(a),
    {
        let syn = match features.tcp_flags {
            Some(fl) => fl & 0x02 != 0 && fl & 0x10 == 0,
            None => false,
        };
        self.activity.record(source_ip, now, syn);
        let blocked = self.is_blocked_ip(source_ip);
        let agent_suspicious = match user_agent {
            Some(ua) => crate::rules::is_scanner_agent(ua),
            None => false,
        };
        let input = RuleInput { features: *features, source_ip, now, agent_suspicious };
        let rule = if blocked || feed_hit.is_some() {
            None
        } else {
            self.rule_engine.check_packet(&input, &self.activity)
        };
        proof {
            if rule is Some {
                crate::rules::lemma_first_match_confidence(self.rule_engine.rules@, input, self.activity.events@);
            }
        }
        let reputation = self.reputation_tracker.get_reputation(source_ip, now);
        proof {
            crate::reputation::lemma_score_bounds(self.reputation_tracker.incidents_of(source_ip), now);
        }
        let feed_some = feed_hit.is_some();
        let rule_some = rule.is_some();
        let r = classify(blocked, feed_hit, rule, reputation, anomaly, self.anomaly_cutoff);
        match &r {
            Some(t) => {
                let reason = if blocked {
                    BlockReason::ManualBlock
                } else if feed_some {
                    BlockReason::ThreatFeed(t.details.clone())
                } else if rule_some {
                    BlockReason::RuleViolation(t.details.clone())
                } else if reputation < REPUTATION_THRESHOLD {
                    BlockReason::BadReputation(reputation)
                } else {
                    BlockReason::AnomalousTraffic
                };
                let ghost chosen = reason;
                if !blocked {
                    self.block(source_ip, reason);
                }
                proof {
                    if !blocked {
                        let sig = if feed_some {
                            Signal::ThreatFeed
                        } else if rule_some {
                            Signal::RuleEngine
                        } else if reputation < REPUTATION_THRESHOLD {
                            Signal::Reputation
                        } else {
                            Signal::Anomaly
                        };
                        assert(reason_view(chosen) == block_reason_for(sig, t.details@, reputation as nat));
                        assert(block_entries(self.blocked_ips) == block_entries(old(self).blocked_ips).insert(source_ip, chosen));
                    }
                }
                let sev = penalty_of(t.severity);
                self.reputation_tracker.update_reputation(
                    source_ip,
                    Incident { timestamp: now, severity: sev, reason: "detected threat".to_string() },
                );
            },
            None => {},
        }
        r
    }
}

/// The user agent, if any, names a scanning tool.
pub open spec fn agent_flag(user_agent: Option<&str>) -> bool {
    match user_agent {
        Some(ua) => crate::rules::scanner_agent(ua@),
        None => false,
    }
}

/// The block-list entry reason (as `reason_view` gives it) for a verdict
/// decided by `s`, whose report has `details`.
pub open spec fn block_reason_for(s: Signal, details: Seq<char>, reputation: nat) -> (nat, Seq<char>, u32) {
    match s {
        Signal::ThreatFeed => (0, details, 0),
        Signal::RuleEngine => (1, details, 0),
        Signal::Reputation => (2, Seq::empty(), reputation as u32),
        Signal::Anomaly => (3, Seq::empty(), 0),
        Signal::BlockList => (4, Seq::empty(), 0),
    }
}

/// The packet heuristics alone: a suspicious destination port, an
/// oversized TCP packet, or a high-entropy payload.
pub open spec fn heuristic_threat(f: PacketFeatures) -> bool {
    f.dest_port == crate::rules::SUSPICIOUS_PORT_A || f.dest_port == crate::rules::SUSPICIOUS_PORT_B
        || (f.packet_size > crate::rules::OVERSIZED_TCP_BYTES && f.is_tcp)
        || f.payload_entropy_milli > crate::rules::HIGH_ENTROPY_MILLI
}

/// True when one of the packet heuristics fires.
pub fn detect_threat(features: &PacketFeatures) -> (r: bool)
    ensures
        r == heuristic_threat(*features),
{
    features.dest_port == crate::rules::SUSPICIOUS_PORT_A || features.dest_port == crate::rules::SUSPICIOUS_PORT_B
        || (features.packet_size > crate::rules::OVERSIZED_TCP_BYTES && features.is_tcp)
        || features.payload_entropy_milli > crate::rules::HIGH_ENTROPY_MILLI
}

/// An address on the block list is flagged by the block list, whatever the
/// other signals say.
pub proof fn lemma_block_list_wins(feed_hit: bool, rule_hit: bool, reputation: nat, anomaly: u32, cutoff: u32)
    ensures
        fused_signal(true, feed_hit, rule_hit, reputation, anomaly, cutoff) == Some(Signal::BlockList),
{
}

/// With any rule list that holds the suspicious-port rule (the default list
/// does), a TCP packet to port 4444 is always flagged: some rule fires, so
/// the fused verdict is positive whatever the other signals say.
pub proof fn lemma_suspicious_port_flagged(
    rules: Seq<crate::rules::Rule>,
    features: PacketFeatures,
    source_ip: u32,
    now: u64,
    agent_suspicious: bool,
    log: Seq<crate::rules::ActivityEvent>,
    blocked: bool,
    feed_hit: bool,
    reputation: nat,
    anomaly: u32,
    cutoff: u32,
)
    requires
        rules.contains(crate::rules::Rule::SuspiciousPort),
        features.dest_port == 4444,
        features.is_tcp,
    ensures
        first_match(rules, RuleInput { features, source_ip, now, agent_suspicious }, log) is Some,
        fused_signal(
            blocked,
            feed_hit,
            first_match(rules, RuleInput { features, source_ip, now, agent_suspicious }, log) is Some,
            reputation,
            anomaly,
            cutoff,
        ) is Some,
{
    let input = RuleInput { features, source_ip, now, agent_suspicious };
    let i = choose|i: int| 0 <= i < rules.len() && rules[i] == crate::rules::Rule::SuspiciousPort;
    crate::rules::lemma_firing_rule_matches(rules, input, log, i);
}

/// The default rule list holds the suspicious-port rule.
pub proof fn lemma_default_rules_check_ports()
    ensures
        RuleEngine::new_spec_rules().contains(crate::rules::Rule::SuspiciousPort),
{
    assert(RuleEngine::new_spec_rules()[3] == crate::rules::Rule::SuspiciousPort);
}

/// Index of the report with the highest confidence among `s`, the last one
/// on ties.
pub open spec fn strongest_index(s: Seq<ThreatInfo>) -> int
    decreases s.len(),
{
    if s.len() <= 1 {
        0
    } else {
        let k = strongest_index(s.drop_last());
        if s.last().confidence >= s[k].confidence { s.len() - 1 } else { k }
    }
}

proof fn lemma_strongest_index(s: Seq<ThreatInfo>)
    requires
        s.len() > 0,
    ensures
        0 <= strongest_index(s) < s.len(),
        forall|j: int| 0 <= j < s.len() ==> (#[trigger] s[j]).confidence <= s[strongest_index(s)].confidence,
        forall|j: int| strongest_index(s) < j < s.len() ==> (#[trigger] s[j]).confidence < s[strongest_index(s)].confidence,
    decreases s.len(),
{
    if s.len() > 1 {
        let d = s.drop_last();
        lemma_strongest_index(d);
        let k = strongest_index(d);
        assert(s[k] == d[k]);
        assert forall|j: int| 0 <= j < s.len() implies (#[trigger] s[j]).confidence <= s[strongest_index(s)].confidence by {
            if j < s.len() - 1 {
                assert(s[j] == d[j]);
            }
        }
        assert forall|j: int| strongest_index(s) < j < s.len() implies (#[trigger] s[j]).confidence < s[strongest_index(s)].confidence by {
            if j < s.len() - 1 {
                assert(s[j] == d[j]);
            }
        }
    }
}

/// Of the reports several feeds gave, the one with the highest confidence
/// (the last of equals); `None` when no feed reported anything.
pub fn strongest_threat(reports: Vec<ThreatInfo>) -> (r: Option<ThreatInfo>)
    ensures
        reports@.len() == 0 ==> r is None,
        reports@.len() > 0 ==> r == Some(reports@[strongest_index(reports@)]),
        reports@.len() > 0 ==> forall|j: int| 0 <= j < reports@.len() ==> (#[trigger] reports@[j]).confidence <= r.unwrap().confidence,
{
    if reports.len() == 0 {
        return None;
    }
    let ghost s = reports@;
    let mut best: usize = 0;
    let mut i: usize = 1;
    while i < reports.len()
        invariant
            s == reports@,
            1 <= i <= s.len(),
            best == strongest_index(s.subrange(0, i as int)),
        decreases s.len() - i,
    {
        proof {
            assert(s.subrange(0, i as int + 1).drop_last() =~= s.subrange(0, i as int));
            lemma_strongest_index(s.subrange(0, i as int));
        }
        if reports[i].confidence >= reports[best].confidence {
            best = i;
        }
        i = i + 1;
    }
    proof {
        assert(s.subrange(0, s.len() as int) =~= s);
        lemma_strongest_index(s);
    }
    let mut reports = reports;
    Some(reports.swap_remove(best))
}

/// Seconds a threat feed's answer stays usable.
pub const FEED_CACHE_SECS: u64 = 3600;

/// Threat feed answers by address (IPv4 number), with the time (seconds)
/// each was fetched; one entry per address.
pub struct FeedCache {
    pub entries: Vec<(u32, u64, Option<ThreatInfo>)>,
}

/// An answer fetched at `fetched` can still be used at `now`.
pub open spec fn cache_fresh(fetched: u64, now: u64) -> bool {
    !(now >= fetched && now - fetched >= FEED_CACHE_SECS)
}

impl FeedCache {
    pub open spec fn wf(&self) -> bool {
        forall|i: int, j: int| 0 <= i < j < self.entries@.len() ==> self.entries@[i].0 != self.entries@[j].0
    }

    /// Position of `addr`'s entry, if any.
    pub open spec fn slot(&self, addr: u32) -> Option<int> {
        if exists|i: int| 0 <= i < self.entries@.len() && self.entries@[i].0 == addr {
            Some(choose|i: int| 0 <= i < self.entries@.len() && self.entries@[i].0 == addr)
        } else {
            None
        }
    }

    pub fn new() -> (r: Self)
        ensures
            r.wf(),
            r.entries@.len() == 0,
    {
        FeedCache { entries: Vec::new() }
    }

    fn find(&self, addr: u32) -> (r: Option<usize>)
        requires
            self.wf(),
        ensures
            match r {
                Some(i) => i < self.entries@.len() && self.slot(addr) == Some(i as int) && self.entries@[i as int].0 == addr,
                None => self.slot(addr) is None,
            },
    {
        let mut i: usize = 0;
        while i < self.entries.len()
            invariant
                self.wf(),
                0 <= i <= self.entries@.len(),
                forall|j: int| 0 <= j < i ==> self.entries@[j].0 != addr,
            decreases self.entries@.len() - i,
        {
            if self.entries[i].0 == addr {
                proof {
                    let k = choose|k: int| 0 <= k < self.entries@.len() && self.entries@[k].0 == addr;
                    assert(k == i);
                }
                return Some(i);
            }
            i = i + 1;
        }
        None
    }

    /// The cached answer for `addr`, when one was fetched less than an hour
    /// before `now`.
    pub fn lookup(&self, addr: u32, now: u64) -> (r: Option<&Option<ThreatInfo>>)
        requires
            self.wf(),
        ensures
            match self.slot(addr) {
                Some(i) => if cache_fresh(self.entries@[i].1, now) {
                    r == Some(&self.entries@[i].2)
                } else {
                    r is None
                },
                None => r is None,
            },
    {
        match self.find(addr) {
            Some(i) => {
                let e = &self.entries[i];
                if now >= e.1 && now - e.1 >= FEED_CACHE_SECS {
                    None
                } else {
                    Some(&e.2)
                }
            },
            None => None,
        }
    }

    /// Records the answer fetched for `addr` at `now`, replacing an older one.
    pub fn store(&mut self, addr: u32, now: u64, answer: Option<ThreatInfo>)
        requires
            old(self).wf(),
        ensures
            final(self).wf(),
            match old(self).slot(addr) {
                Some(i) => final(self).entries@ == old(self).entries@.update(i, (addr, now, answer)),
                None => final(self).entries@ == old(self).entries@.push((addr, now, answer)),
            },
    {
        match self.find(addr) {
            Some(i) => {
                let ghost before = self.entries@;
                self.entries.set(i, (addr, now, answer));
                proof {
                    assert forall|a: int, b: int| 0 <= a < b < self.entries@.len() implies self.entries@[a].0 != self.entries@[b].0 by {
                        assert(before[a].0 != before[b].0);
                    }
                }
            },
            None => {
                self.entries.push((addr, now, answer));
            },
        }
    }
}

} // verus!
