[package]
name = "nslogger"
version = "0.1.0"
edition = "2021"
publish = false

[dependencies]
log = { version = "0.4", features = ["std"] }
chrono = "0.4"
sys-info = "0.9"
tokio = { version = "1", features = ["rt-multi-thread", "net", "fs", "io-util", "sync", "time"] }
tokio-rustls = { version = "0.26", default-features = false, features = ["ring", "tls12", "logging"] }
rustls = { version = "0.23", default-features = false, features = ["ring", "std", "tls12", "logging"] }
webpki-roots = "0.26"
futures = "0.3"
async-dnssd = "0.5"
env_logger = "0.11"
thiserror = "2"

[dev-dependencies]
tempfile = "3"
