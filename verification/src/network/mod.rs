//! Gossip between nodes: the messages, their framing, the peers a node
//! knows, and the decisions a node takes on what it hears.

pub mod messages;
pub mod sync;
pub mod ceremony;
pub mod compress;
pub mod peer_discovery;
pub mod node;
