[package]
name = "rustjack"
version = "1.1.0"
edition = "2021"
publish = false

[dependencies]
axum = "=0.7.9"
axum-server = { version = "0.7", default-features = false, features = ["tls-rustls-no-provider"] }
base64 = "=0.22.1"
futures = "=0.3.34"
k8s-openapi = { version = "=0.21.1", features = ["v1_28"] }
kube = { version = "=0.90.0", default-features = false, features = ["client", "runtime", "rustls-tls"] }
rand = "=0.8.8"
rcgen = "=0.12.1"
serde_json = "=1.0.154"
time = "=0.3.55"
tokio = { version = "=1.54.1", features = ["full"] }
tracing = "=0.1.44"
tracing-subscriber = "=0.3.23"
x509-parser = "=0.16.0"
