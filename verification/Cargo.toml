[package]
name = "bution"
version = "0.1.0"
edition = "2021"
publish = false

[dependencies]
anyhow = "1"
base64 = "0.22"
chrono = { version = "0.4", features = ["serde"] }
clap = { version = "4", features = ["derive"] }
crossterm = "0.28"
directories = "6"
ed25519-dalek = { version = "2", features = ["rand_core"] }
flate2 = "1"
fs2 = "0.4"
futures-util = "0.3"
hostname = "0.4"
if-addrs = "0.13"
mdns-sd = "0.13"
rand_core = { version = "0.6", features = ["getrandom"] }
ratatui = "0.29"
reqwest = { version = "0.12", default-features = false, features = ["json", "stream", "rustls-tls"] }
serde = { version = "1", features = ["derive"] }
serde_json = "1"
sha2 = "0.10"
snow = "0.9"
sys-locale = "0.3"
sysinfo = "0.33"
tar = "0.4"
tokio = { version = "1", features = ["full"] }
toml = "0.8"
uuid = { version = "1", features = ["v4", "serde"] }
zip = { version = "2", default-features = false, features = ["deflate"] }
