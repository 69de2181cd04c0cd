//! Certificates of the services.

pub mod cert_manager;
