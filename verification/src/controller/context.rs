//! What other parts of the operator have worked out for a node.

use vstd::prelude::*;
use crate::json::Json;

verus! {

/// Values that the manifests of a node take over from other parts of the
/// operator.
pub struct NodeContext {
    /// The network's value of the label by which pods are spread.
    pub network_label: String,
    /// The network's value of the label that namespaces carry.
    pub isolation_label: String,
    /// The name of the network.
    pub network_name: String,
    pub network_passphrase: String,
    /// The CPU limit in thousandths of a core, where it is written as a
    /// number of cores.
    pub limit_millicores: Option<u32>,
    /// The CPU request in thousandths of a core, where it is written as a
    /// number of cores.
    pub request_millicores: Option<u32>,
    /// The members of the quorum set, by name.
    pub quorum_peers: Vec<String>,
    /// The node affinity that the node's jurisdiction asks for.
    pub jurisdiction_affinity: Option<Json>,
    /// The node's tolerations with those of its jurisdiction.
    pub jurisdiction_tolerations: Vec<Json>,
    /// The sidecar that streams ledgers to a standby.
    pub state_sync_sidecar: Json,
    /// The configuration of captive core, as TOML, where it could be built.
    pub captive_core_toml: Option<String>,
    /// The quorum set in force in place of the configured one, as TOML.
    pub quorum_override_toml: Option<String>,
    pub operator_version: String,
}

} // verus!
