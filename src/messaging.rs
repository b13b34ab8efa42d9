use vstd::prelude::*;

verus! {

/// Connection settings of the message bus client.
#[derive(Clone, Debug)]
pub struct KafkaConfig {
    pub bootstrap_servers: String,
    pub group_id: String,
    pub topics: Vec<String>,
    pub client_id: String,
}

impl KafkaConfig {
    pub fn new(bootstrap_servers: &str, group_id: &str, topics: Vec<String>, client_id: &str) -> (r: Self)
        ensures
            r.bootstrap_servers@ == bootstrap_servers@,
            r.group_id@ == group_id@,
            r.topics == topics,
            r.client_id@ == client_id@,
    {
        KafkaConfig {
            bootstrap_servers: bootstrap_servers.to_string(),
            group_id: group_id.to_string(),
            topics,
            client_id: client_id.to_string(),
        }
    }
}

/// Kinds of message on the bus.
#[derive(Clone, Copy, Debug, PartialEq, Eq, Structural)]
pub enum MessageType {
    ThreatFeed,
    ModelUpdate,
    SystemStatus,
}

/// A handler that accepts every message.
#[derive(Clone, Copy, Debug, PartialEq, Eq, Structural)]
pub struct ExampleHandler;

} // verus!
