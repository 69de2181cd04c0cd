[package]
name = "stellar_k8s"
version = "0.1.0"
edition = "2021"
publish = false

[dependencies]
async-trait = "0.1"
base64 = "=0.22.1"
chrono = { version = "=0.4.45", features = ["serde"] }
clap = { version = "4", features = ["derive", "env"] }
ed25519-dalek = { version = "=2.2.0", features = ["rand_core"] }
futures = "0.3"
hostname = "0.4"
http = "1"
k8s-openapi = { version = "=0.24.0", features = ["latest"] }
kube = { version = "=0.98.0", default-features = false, features = ["client", "rustls-tls", "runtime", "derive"] }
opentelemetry = "=0.24.0"
opentelemetry-otlp = "=0.17.0"
opentelemetry_sdk = { version = "=0.24.1", features = ["rt-tokio"] }
rand = "=0.8.8"
rand_distr = "=0.4.3"
reqwest = { version = "=0.12.28", default-features = false, features = ["json", "rustls-tls"] }
rustls = { version = "=0.23.46", default-features = false, features = ["ring", "std", "tls12"] }
schemars = "=0.8.22"
serde = { version = "=1.0.229", features = ["derive"] }
serde_json = "=1.0.154"
sha2 = "=0.10.9"
thiserror = "1"
tokio = { version = "=1.54.1", features = ["full"] }
toml = "=0.8.23"
tracing = "0.1"
tracing-opentelemetry = "0.25"
tracing-subscriber = { version = "0.3", features = ["env-filter"] }
uuid = { version = "1", features = ["v4"] }
x509-parser = { version = "=0.16.0", features = ["verify"] }

[dev-dependencies]
rcgen = "0.14"
