use vstd::prelude::*;
use crate::features::PacketFeatures;
use crate::threat::{ThreatSeverity, ThreatCategory, Signal, ThreatInfo};

verus! {

/// Destination ports that the suspicious-port rule flags.
pub const SUSPICIOUS_PORT_A: u16 = 4444;
pub const SUSPICIOUS_PORT_B: u16 = 31337;
/// TCP packets larger than this (bytes) are flagged as oversized.
pub const OVERSIZED_TCP_BYTES: u32 = 10000;
/// Payload entropy above this (thousandths of a bit per byte) is flagged.
pub const HIGH_ENTROPY_MILLI: u32 = 7500;

/// What a rule looks at: the packet's features, its source, the time
/// (seconds), and whether its HTTP user agent names a scanning tool; the
/// source's history comes from an [`ActivityLog`].
#[derive(Clone, Copy, Debug)]
pub struct RuleInput {
    pub features: PacketFeatures,
    pub source_ip: u32,
    pub now: u64,
    pub agent_suspicious: bool,
}

/// One packet seen from a source: address, time (seconds), and whether it
/// was a SYN without ACK.
pub type ActivityEvent = (u32, u64, bool);

/// The event falls in the `window` seconds up to `now` (or is dated later).
pub open spec fn in_window(t: u64, now: u64, window: u64) -> bool {
    !(now >= t && now - t >= window)
}

/// Events of `addr` in the window, only SYN-without-ACK ones if `syn_only`.
pub open spec fn count_events(s: Seq<ActivityEvent>, addr: u32, now: u64, window: u64, syn_only: bool) -> nat
    decreases s.len(),
{
    if s.len() == 0 {
        0
    } else {
        let e = s.last();
        count_events(s.drop_last(), addr, now, window, syn_only)
            + if e.0 == addr && in_window(e.1, now, window) && (!syn_only || e.2) { 1nat } else { 0nat }
    }
}

pub proof fn lemma_count_events_le(s: Seq<ActivityEvent>, addr: u32, now: u64, window: u64, syn_only: bool)
    ensures
        count_events(s, addr, now, window, syn_only) <= s.len(),
    decreases s.len(),
{
    if s.len() > 0 {
        lemma_count_events_le(s.drop_last(), addr, now, window, syn_only);
    }
}

/// Per-source packet history that the port-scan and rate-limit rules read.
pub struct ActivityLog {
    pub events: Vec<ActivityEvent>,
}

impl ActivityLog {
    pub fn new() -> (r: Self)
        ensures
            r.events@.len() == 0,
    {
        ActivityLog { events: Vec::new() }
    }

    pub fn record(&mut self, addr: u32, now: u64, syn_without_ack: bool)
        ensures
            final(self).events@ == old(self).events@.push((addr, now, syn_without_ack)),
    {
        self.events.push((addr, now, syn_without_ack));
    }

    /// Number of `addr`'s events in the window.
    pub fn count(&self, addr: u32, now: u64, window: u64, syn_only: bool) -> (r: u64)
        ensures
            r == count_events(self.events@, addr, now, window, syn_only),
    {
        let mut c: u64 = 0;
        let mut i: usize = 0;
        while i < self.events.len()
            invariant
                0 <= i <= self.events@.len(),
                c == count_events(self.events@.subrange(0, i as int), addr, now, window, syn_only),
            decreases self.events@.len() - i,
        {
            let e = self.events[i];
            proof {
                let sub = self.events@.subrange(0, i as int + 1);
                assert(sub.drop_last() =~= self.events@.subrange(0, i as int));
                lemma_count_events_le(sub, addr, now, window, syn_only);
            }
            if e.0 == addr && !(now >= e.1 && now - e.1 >= window) && (!syn_only || e.2) {
                c = c + 1;
            }
            i = i + 1;
        }
        assert(self.events@.subrange(0, self.events@.len() as int) =~= self.events@);
        c
    }

    /// Drops the events older than `keep` seconds.
    pub fn prune(&mut self, now: u64, keep: u64)
        ensures
            final(self).events@ == events_in_window(old(self).events@, now, keep),
    {
        let ghost t0 = self.events@;
        let mut kept: Vec<ActivityEvent> = Vec::new();
        let mut i: usize = 0;
        while i < self.events.len()
            invariant
                self.events@ == t0,
                0 <= i <= t0.len(),
                kept@ == events_in_window(t0.subrange(0, i as int), now, keep),
            decreases t0.len() - i,
        {
            let e = self.events[i];
            assert(t0.subrange(0, i as int + 1).drop_last() =~= t0.subrange(0, i as int));
            if !(now >= e.1 && now - e.1 >= keep) {
                kept.push(e);
            }
            i = i + 1;
        }
        assert(t0.subrange(0, t0.len() as int) =~= t0);
        self.events = kept;
    }
}

/// The events of `s` in the window, in order.
pub open spec fn events_in_window(s: Seq<ActivityEvent>, now: u64, keep: u64) -> Seq<ActivityEvent>
    decreases s.len(),
{
    if s.len() == 0 {
        s
    } else {
        let rest = events_in_window(s.drop_last(), now, keep);
        if in_window(s.last().1, now, keep) { rest.push(s.last()) } else { rest }
    }
}

/// Flags a source whose SYN-without-ACK count in `time_window` seconds
/// exceeds `threshold`.
#[derive(Clone, Copy, Debug, PartialEq, Eq, Structural)]
pub struct PortScanRule {
    pub threshold: u32,
    pub time_window: u64,
}

/// Flags a source whose packet count in `time_window` seconds exceeds
/// `max_requests`.
#[derive(Clone, Copy, Debug, PartialEq, Eq, Structural)]
pub struct RateLimitRule {
    pub max_requests: u32,
    pub time_window: u64,
}

/// One rule of the engine.
#[derive(Clone, Copy, Debug, PartialEq, Eq, Structural)]
pub enum Rule {
    PortScan(PortScanRule),
    SuspiciousUserAgent,
    RateLimit(RateLimitRule),
    SuspiciousPort,
    OversizedTcp,
    HighEntropy,
}

/// What a rule reports when it fires: severity, category and confidence.
pub open spec fn rule_verdict(rule: Rule, input: RuleInput, log: Seq<ActivityEvent>) -> Option<(ThreatSeverity, ThreatCategory, u32)> {
    match rule {
        Rule::PortScan(r) => if count_events(log, input.source_ip, input.now, r.time_window, true) > r.threshold {
            Some((ThreatSeverity::High, ThreatCategory::Scanner, 900u32))
        } else {
            None
        },
        Rule::RateLimit(r) => if count_events(log, input.source_ip, input.now, r.time_window, false) > r.max_requests {
            Some((ThreatSeverity::Medium, ThreatCategory::DDoS, 800u32))
        } else {
            None
        },
        Rule::SuspiciousUserAgent => if input.agent_suspicious {
            Some((ThreatSeverity::Medium, ThreatCategory::Scanner, 700u32))
        } else {
            None
        },
        Rule::SuspiciousPort => if input.features.dest_port == SUSPICIOUS_PORT_A || input.features.dest_port == SUSPICIOUS_PORT_B {
            Some((ThreatSeverity::High, ThreatCategory::Intrusion, 900u32))
        } else {
            None
        },
        Rule::OversizedTcp => if input.features.packet_size > OVERSIZED_TCP_BYTES && input.features.is_tcp {
            Some((ThreatSeverity::Medium, ThreatCategory::DataExfiltration, 600u32))
        } else {
            None
        },
        Rule::HighEntropy => if input.features.payload_entropy_milli > HIGH_ENTROPY_MILLI {
            Some((ThreatSeverity::Medium, ThreatCategory::Malware, 600u32))
        } else {
            None
        },
    }
}

/// The verdict of the first rule of `rules` that fires.
pub open spec fn first_match(rules: Seq<Rule>, input: RuleInput, log: Seq<ActivityEvent>) -> Option<(ThreatSeverity, ThreatCategory, u32)>
    decreases rules.len(),
{
    if rules.len() == 0 {
        None
    } else {
        match rule_verdict(rules[0], input, log) {
            Some(v) => Some(v),
            None => first_match(rules.skip(1), input, log),
        }
    }
}

/// When some rule of the list fires, the list reports a match.
pub proof fn lemma_firing_rule_matches(rules: Seq<Rule>, input: RuleInput, log: Seq<ActivityEvent>, i: int)
    requires
        0 <= i < rules.len(),
        rule_verdict(rules[i], input, log) is Some,
    ensures
        first_match(rules, input, log) is Some,
    decreases i,
{
    if i > 0 && rule_verdict(rules[0], input, log) is None {
        assert(rules.skip(1)[i - 1] == rules[i]);
        lemma_firing_rule_matches(rules.skip(1), input, log, i - 1);
    }
}

/// Every rule reports a confidence of at most 1000.
pub proof fn lemma_first_match_confidence(rules: Seq<Rule>, input: RuleInput, log: Seq<ActivityEvent>)
    ensures
        first_match(rules, input, log) is Some ==> first_match(rules, input, log).unwrap().2 <= 1000,
    decreases rules.len(),
{
    if rules.len() > 0 {
        lemma_first_match_confidence(rules.skip(1), input, log);
    }
}

/// A reported threat matches a rule verdict.
pub open spec fn reports(t: ThreatInfo, v: (ThreatSeverity, ThreatCategory, u32)) -> bool {
    t.severity == v.0 && t.category == v.1 && t.confidence == v.2 && t.source == Signal::RuleEngine
}

impl PortScanRule {
    pub fn new(threshold: u32, time_window: u64) -> (r: Self)
        ensures
            r.threshold == threshold,
            r.time_window == time_window,
    {
        PortScanRule { threshold, time_window }
    }
}

impl RateLimitRule {
    pub fn new(max_requests: u32, time_window: u64) -> (r: Self)
        ensures
            r.max_requests == max_requests,
            r.time_window == time_window,
    {
        RateLimitRule { max_requests, time_window }
    }
}

impl Rule {
    /// Evaluates this rule alone.
    pub fn check(&self, input: &RuleInput, log: &ActivityLog) -> (r: Option<ThreatInfo>)
        ensures
            match rule_verdict(*self, *input, log.events@) {
                Some(v) => r is Some && reports(r.unwrap(), v),
                None => r is None,
            },
    {
        let f = &input.features;
        let v: Option<(ThreatSeverity, ThreatCategory, u32, &str)> = match self {
            Rule::PortScan(r) => if log.count(input.source_ip, input.now, r.time_window, true) > r.threshold as u64 {
                Some((ThreatSeverity::High, ThreatCategory::Scanner, 900u32, "port scan"))
            } else {
                None
            },
            Rule::RateLimit(r) => if log.count(input.source_ip, input.now, r.time_window, false) > r.max_requests as u64 {
                Some((ThreatSeverity::Medium, ThreatCategory::DDoS, 800u32, "rate limit exceeded"))
            } else {
                None
            },
            Rule::SuspiciousUserAgent => if input.agent_suspicious {
                Some((ThreatSeverity::Medium, ThreatCategory::Scanner, 700u32, "scanning tool user agent"))
            } else {
                None
            },
            Rule::SuspiciousPort => if f.dest_port == SUSPICIOUS_PORT_A || f.dest_port == SUSPICIOUS_PORT_B {
                Some((ThreatSeverity::High, ThreatCategory::Intrusion, 900u32, "suspicious destination port"))
            } else {
                None
            },
            Rule::OversizedTcp => if f.packet_size > OVERSIZED_TCP_BYTES && f.is_tcp {
                Some((ThreatSeverity::Medium, ThreatCategory::DataExfiltration, 600u32, "oversized TCP packet"))
            } else {
                None
            },
            Rule::HighEntropy => if f.payload_entropy_milli > HIGH_ENTROPY_MILLI {
                Some((ThreatSeverity::Medium, ThreatCategory::Malware, 600u32, "high payload entropy"))
            } else {
                None
            },
        };
        match v {
            Some((severity, category, confidence, details)) => Some(ThreatInfo {
                severity,
                category,
                confidence,
                source: Signal::RuleEngine,
                details: details.to_string(),
            }),
            None => None,
        }
    }
}

/// An ordered list of rules; the first that fires decides.
pub struct RuleEngine {
    pub rules: Vec<Rule>,
}

impl RuleEngine {
    /// Port scan (100 in 60 s), scanning-tool user agent and rate limit
    /// (1000 in 60 s) first, then the packet heuristics: suspicious port,
    /// oversized TCP, high entropy.
    pub open spec fn new_spec_rules() -> Seq<Rule> {
        seq![
            Rule::PortScan(PortScanRule { threshold: 100, time_window: 60 }),
            Rule::SuspiciousUserAgent,
            Rule::RateLimit(RateLimitRule { max_requests: 1000, time_window: 60 }),
            Rule::SuspiciousPort,
            Rule::OversizedTcp,
            Rule::HighEntropy,
        ]
    }

    pub fn new() -> (r: Self)
        ensures
            r.rules@ == Self::new_spec_rules(),
    {
        let mut rules: Vec<Rule> = Vec::new();
        rules.push(Rule::PortScan(PortScanRule::new(100, 60)));
        rules.push(Rule::SuspiciousUserAgent);
        rules.push(Rule::RateLimit(RateLimitRule::new(1000, 60)));
        rules.push(Rule::SuspiciousPort);
        rules.push(Rule::OversizedTcp);
        rules.push(Rule::HighEntropy);
        assert(rules@ =~= seq![
            Rule::PortScan(PortScanRule { threshold: 100, time_window: 60 }),
            Rule::SuspiciousUserAgent,
            Rule::RateLimit(RateLimitRule { max_requests: 1000, time_window: 60 }),
            Rule::SuspiciousPort,
            Rule::OversizedTcp,
            Rule::HighEntropy,
        ]);
        RuleEngine { rules }
    }

    /// The report of the first rule that fires, if any.
    pub fn check_packet(&self, input: &RuleInput, log: &ActivityLog) -> (r: Option<ThreatInfo>)
        ensures
            match first_match(self.rules@, *input, log.events@) {
                Some(v) => r is Some && reports(r.unwrap(), v),
                None => r is None,
            },
    {
        let mut i: usize = 0;
        assert(self.rules@.skip(0) =~= self.rules@);
        while i < self.rules.len()
            invariant
                0 <= i <= self.rules@.len(),
                first_match(self.rules@, *input, log.events@) == first_match(self.rules@.skip(i as int), *input, log.events@),
            decreases self.rules@.len() - i,
        {
            let ghost rest = self.rules@.skip(i as int);
            assert(rest[0] == self.rules@[i as int]);
            assert(rest.skip(1) =~= self.rules@.skip(i as int + 1));
            let r = self.rules[i].check(input, log);
            if r.is_some() {
                return r;
            }
            i = i + 1;
        }
        None
    }
}

/// `p` occurs in `s` as a contiguous run.
pub open spec fn contains_sub(s: Seq<char>, p: Seq<char>) -> bool {
    exists|i: int| 0 <= i && i + p.len() <= s.len() && #[trigger] s.subrange(i, i + p.len()) == p
}

pub open spec fn sqlmap() -> Seq<char> { seq!['s', 'q', 'l', 'm', 'a', 'p'] }
pub open spec fn nikto() -> Seq<char> { seq!['n', 'i', 'k', 't', 'o'] }
pub open spec fn nmap() -> Seq<char> { seq!['n', 'm', 'a', 'p'] }
pub open spec fn masscan() -> Seq<char> { seq!['m', 'a', 's', 's', 'c', 'a', 'n'] }

/// A user agent that names a scanning tool: sqlmap, nikto, nmap or masscan.
pub open spec fn scanner_agent(ua: Seq<char>) -> bool {
    contains_sub(ua, sqlmap()) || contains_sub(ua, nikto()) || contains_sub(ua, nmap()) || contains_sub(ua, masscan())
}

fn window_is(s: &Vec<char>, i: usize, p: &Vec<char>) -> (r: bool)
    requires
        i + p@.len() <= s@.len(),
    ensures
        r == (s@.subrange(i as int, i + p@.len()) == p@),
{
    let n = s.len();
    let mut j: usize = 0;
    while j < p.len()
        invariant
            n == s@.len(),
            i + p@.len() <= s@.len(),
            0 <= j <= p@.len(),
            s@.subrange(i as int, i + j) == p@.subrange(0, j as int),
        decreases p@.len() - j,
    {
        assert(i + j < s@.len());
        if s[i + j] != p[j] {
            assert(s@.subrange(i as int, i + p@.len())[j as int] != p@[j as int]);
            return false;
        }
        assert(s@.subrange(i as int, i + j + 1) =~= p@.subrange(0, j as int + 1));
        j = j + 1;
    }
    assert(p@.subrange(0, p@.len() as int) =~= p@);
    true
}

fn has_sub(s: &Vec<char>, p: &Vec<char>) -> (r: bool)
    ensures
        r == contains_sub(s@, p@),
{
    if p.len() > s.len() {
        return false;
    }
    let last = s.len() - p.len();
    let mut i: usize = 0;
    loop
        invariant
            last + p@.len() == s@.len(),
            0 <= i <= last,
            forall|k: int| 0 <= k < i ==> #[trigger] s@.subrange(k, k + p@.len()) != p@,
        decreases last - i,
    {
        if window_is(s, i, p) {
            return true;
        }
        if i == last {
            return false;
        }
        i = i + 1;
    }
}

/// True when the user agent names a scanning tool.
pub fn is_scanner_agent(ua: &str) -> (r: bool)
    ensures
        r == scanner_agent(ua@),
{
    let s = crate::text::chars_of(ua);
    let a = vec!['s', 'q', 'l', 'm', 'a', 'p'];
    let b = vec!['n', 'i', 'k', 't', 'o'];
    let c = vec!['n', 'm', 'a', 'p'];
    let d = vec!['m', 'a', 's', 's', 'c', 'a', 'n'];
    assert(a@ == sqlmap() && b@ == nikto() && c@ == nmap() && d@ == masscan());
    has_sub(&s, &a) || has_sub(&s, &b) || has_sub(&s, &c) || has_sub(&s, &d)
}

} // verus!
