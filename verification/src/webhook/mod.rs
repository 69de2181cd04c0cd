//! The admission webhook.

pub mod cert_health;
