//! The custom resources of the operator.

pub mod capacity_forecast;
pub mod compliance_report;
pub mod config_snapshot;
pub mod control_plane_health;
pub mod incident;
pub mod internal_api_schema;
pub mod multisig_operation;
pub mod progressive_delivery;
pub mod read_only_pool;
pub mod stellar_node;
pub mod types;
pub mod validator_score;
