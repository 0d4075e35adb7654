[package]
name = "varlink-httpd"
version = "0.1.0"
edition = "2021"
publish = false

[dependencies]
anyhow = "=1.0.104"
axum = { version = "=0.8.9", features = ["ws"] }
env_logger = "=0.11.11"
indoc = "=2.0.8"
lexopt = "=0.3.2"
listenfd = "=1.0.2"
log = "=0.4.35"
openssl = "=0.10.82"
rustix = { version = "=1.1.6", features = ["process", "event"] }
serde = { version = "=1.0.229", features = ["derive"] }
serde_json = "=1.0.154"
signal-hook = "=0.4.6"
ssh-key = "=0.6.7"
sshauth = "=0.1.2"
tempfile = "=3.27.0"
tokio = { version = "=1.54.1", features = ["full"] }
tokio-openssl = "=0.6.5"
tungstenite = "=0.30.0"
ureq = { version = "=3.5.1", default-features = false, features = ["native-tls"] }
zlink = { version = "=0.5.0", features = ["idl-parse"] }

[dev-dependencies]
regex-lite = "=0.1.9"
