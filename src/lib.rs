//! Host intrusion detection with self-healing: packet feature extraction,
//! isolation-forest paths, reputation, rules, threat fusion, mitigation and
//! component healing, each with its contract proved.
pub mod detector;
pub mod features;
pub mod firewall;
pub mod forest;
pub mod healing;
pub mod http;
pub mod messaging;
pub mod monitor;
pub mod mutations;
pub mod packet;
pub mod reputation;
pub mod rules;
pub mod sequences;
mod text;
pub mod threat;

pub use detector::{ThreatDetector, BlockReason, classify, categorize_threat, feed_threat, detect_threat, strongest_threat, FeedCache};
pub use features::{FeatureExtractor, PacketFeatures, ConnectionKey, ConnectionStats, parse_frame, ip_payload, byte_histogram};
pub use firewall::{Firewall, FirewallError};
pub use forest::{IsolationTree, IsolationForestCustom, PathEnd};
pub use healing::{Component, Healable, HealingError, HealthMonitor, HealthState, HealthEvent, HealAction, RepairOutcome, next_state, heal_component};
pub use http::{HttpInfo, TcpFlags, parse_http_request, parse_http_text, parse_tcp_flags};
pub use messaging::{KafkaConfig, MessageType, ExampleHandler};
pub use mutations::case_mutations;
pub use packet::{PacketInfo, packet_info};
pub use reputation::{ReputationTracker, ReputationScore, Incident, calculate_score};
pub use rules::{RuleEngine, Rule, PortScanRule, RateLimitRule, RuleInput, ActivityLog, is_scanner_agent};
pub use sequences::{generate_fibonacci, generate_lucas};
pub use threat::{ThreatSeverity, ThreatCategory, ThreatStatus, IndicatorType, Signal, ThreatInfo};
