[package]
name = "fluxcd"
version = "0.1.0"
edition = "2021"
publish = false

[dependencies]
async-trait = "=0.1.92"
clap = { version = "=3.2.25", features = ["derive"] }
eyre = "=0.6.14"
futures = "=0.3.34"
k8s-openapi = { version = "=0.14.0", default-features = false, features = ["v1_22"] }
kube = { version = "=0.68.0", default-features = false, features = ["client", "derive", "runtime", "rustls-tls"] }
prometheus = { version = "=0.13.4", default-features = false }
schemars = "=0.8.22"
serde = { version = "=1.0.229", features = ["derive"] }
serde_json = "=1.0.154"
serde_yaml = "=0.8.26"
signal-hook = "=0.3.18"
signal-hook-tokio = { version = "=0.3.1", features = ["futures-v0_3"] }
thiserror = "=1.0.69"
time = "=0.3.55"
tokio = { version = "=1.54.1", features = ["rt-multi-thread"] }
tracing = "=0.1.44"
utf-8 = "=0.7.6"

[dev-dependencies]
time = { version = "=0.3.55", features = ["formatting"] }
