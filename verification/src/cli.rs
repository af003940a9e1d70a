//! The command line of the node program.

use vstd::prelude::*;

verus! {

/// The parsed command line: a command and the configuration file.
#[derive(Debug, Clone)]
pub struct Cli {
    pub command: Commands,
    /// Path of the configuration file.
    pub config: String,
}

/// What the node program is asked to do.
#[derive(Debug, Clone)]
pub enum Commands {
    /// Initialize a node.
    Init {
        /// Network name.
        name: String,
        /// The user's display name.
        display_name: Option<String>,
        /// Documents directory.
        documents_dir: String,
        /// Whether the node founds the network.
        genesis: bool,
        node_port: u16,
        rpc_port: u16,
        public_port: u16,
        /// Peer addresses to connect to first.
        bootstrap: Vec<String>,
    },
    /// Start the node.
    Start,
    /// Show the node's status and identity.
    Status,
    /// Add a file to the shared documents.
    AddFile { path: String, content: Option<String> },
    /// Propose an edit of a shared file.
    EditFile { path: String, content: Option<String> },
    /// List the files of the documents directory.
    ListFiles,
    /// Print a file.
    ReadFile { path: String },
    /// Make a local copy of a document.
    Fork { path: String, new_name: Option<String>, share: bool },
    /// Propose to mark a document final.
    Finalize { path: String },
    /// Vote on a pending proposal; `choice` is `accept` or `reject`.
    Vote { proposal_id: String, choice: String },
    /// List the pending proposals.
    Proposals,
    /// List the members.
    Members,
    /// Propose adding a member.
    ProposeMember { public_key: String, name: Option<String> },
    /// Propose expelling a member.
    ProposeExpel { digest: String },
    /// Make a new key pair and save its secret.
    Keygen { output: String },
}

} // verus!
