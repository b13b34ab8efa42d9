use vstd::prelude::*;

verus! {

/// How serious a detected threat is; totally ordered from `Low` to `Critical`.
#[derive(Clone, Copy, Debug, PartialEq, Eq, Structural)]
pub enum ThreatSeverity {
    Low,
    Medium,
    High,
    Critical,
}

impl ThreatSeverity {
    /// Position of the severity in the order `Low < Medium < High < Critical`.
    pub open spec fn rank(self) -> nat {
        match self {
            ThreatSeverity::Low => 0,
            ThreatSeverity::Medium => 1,
            ThreatSeverity::High => 2,
            ThreatSeverity::Critical => 3,
        }
    }

    pub fn level(&self) -> (r: u8)
        ensures
            r as nat == self.rank(),
    {
        match self {
            ThreatSeverity::Low => 0,
            ThreatSeverity::Medium => 1,
            ThreatSeverity::High => 2,
            ThreatSeverity::Critical => 3,
        }
    }

    /// True when `self` is at least as severe as `other`.
    pub fn at_least(&self, other: &ThreatSeverity) -> (r: bool)
        ensures
            r == (self.rank() >= other.rank()),
    {
        self.level() >= other.level()
    }
}

/// Kind of threat.
#[derive(Clone, Debug, PartialEq, Eq)]
pub enum ThreatCategory {
    Malware,
    Phishing,
    BotNet,
    DDoS,
    Scanner,
    Intrusion,
    DataExfiltration,
    Spam,
    Other(String),
}

/// Lifecycle of a recorded threat.
#[derive(Clone, Copy, Debug, PartialEq, Eq, Structural)]
pub enum ThreatStatus {
    Active,
    Mitigated,
    FalsePositive,
    Investigating,
}

/// Kind of indicator of compromise.
#[derive(Clone, Copy, Debug, PartialEq, Eq, Structural)]
pub enum IndicatorType {
    IP,
    Domain,
    URL,
    FileHash,
    UserAgent,
}

/// Which detection signal produced a verdict.
#[derive(Clone, Copy, Debug, PartialEq, Eq, Structural)]
pub enum Signal {
    BlockList,
    ThreatFeed,
    RuleEngine,
    Reputation,
    Anomaly,
}

/// One detection. `confidence` is in thousandths (0 ..= 1000).
#[derive(Clone, Debug)]
pub struct ThreatInfo {
    pub severity: ThreatSeverity,
    pub category: ThreatCategory,
    pub confidence: u32,
    pub source: Signal,
    pub details: String,
}

} // verus!
