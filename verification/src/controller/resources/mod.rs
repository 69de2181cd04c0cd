//! The Kubernetes manifests of a node.
//!
//! A manifest is built as a JSON document, as the API server takes it. Its
//! metadata is what the operator itself sets; the metadata that a user lays
//! over it (`resourceMeta`) is merged where the manifest is applied, and the step
//! that applies it says where that is.

pub mod cnpg;
pub mod config_map;
pub mod helpers;
pub mod hpa;
pub mod ingress;
pub mod network_policy;
pub mod plan;
pub mod pod_template;
pub mod service;
pub mod storage;
pub mod workload;
