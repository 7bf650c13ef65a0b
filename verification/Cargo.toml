[package]
name = "routelane"
version = "0.1.0"
edition = "2021"
publish = false

[dependencies]
anyhow = "1"
async-channel = "2"
env_logger = "0.10"
glib = "0.17"
gtk4 = "0.6"
libadwaita = "0.4"
ksni = { version = "0.3", features = ["blocking"] }
log = "0.4"
serde = { version = "1", features = ["derive"] }
serde_json = "1"
tokio = { version = "1", features = ["full"] }
