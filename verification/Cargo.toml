[package]
name = "depdive"
version = "0.1.0"
edition = "2021"
publish = false

[dependencies]
anyhow = "=1.0.104"
camino = "=1.2.6"
chrono = "=0.4.45"
guppy = "=0.19.1"
reqwest = { version = "=0.11.27", features = ["blocking", "json"] }
rustsec = "0.24"
semver = "=1.0.28"
separator = "=0.4.1"
serde = { version = "=1.0.229", features = ["derive"] }
serde_json = "=1.0.154"
thiserror = "=1.0.69"
tokei = "=12.1.2"
url = "=2.5.8"
