[package]
name = "krustlet"
version = "0.1.0"
edition = "2021"
publish = false

[dependencies]
anyhow = "=1.0.104"
async-trait = "=0.1.92"
chrono = "=0.4.45"
futures-util = "=0.3.34"
hyperx = "=0.13.2"
k8s-openapi = { version = "=0.25.0", features = ["latest"] }
kube = { version = "=1.1.0", features = ["runtime"] }
kube-runtime = "=1.1.0"
reqwest = { version = "=0.12.28", default-features = false, features = ["rustls-tls", "json", "stream"] }
serde = { version = "=1.0.229", features = ["derive"] }
serde_json = "=1.0.154"
tempfile = "=3.27.0"
tokio = { version = "=1.54.1", features = ["full"] }
tokio-stream = { version = "=0.1.19", features = ["sync"] }
www-authenticate = "=0.3.0"
