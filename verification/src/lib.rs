pub mod clock;
pub mod controller;
pub mod crd;
pub mod data_residency;
pub mod database;
pub mod degradation;
pub mod digest;
pub mod error;
pub mod fair_share_rate_limiter;
pub mod federation_consistency;
pub mod incident;
pub mod json;
pub mod json_text;
pub mod mtls;
pub mod node_boot_verification;
pub mod rollback_engine;
pub mod schema_evolution;
pub mod schema_registry;
pub mod secrets_broker;
pub mod security;
pub mod str_map;
pub mod telemetry;
pub mod text;
pub mod text_map;
pub mod wall_clock;
pub mod webhook;
