[package]
name = "pattern_of_doom"
version = "0.1.0"
edition = "2021"
publish = false

[dependencies]
chrono = "0.4"
crossterm = "0.28"
dotenvy = "0.15"
figlet-rs = "0.1"
futures-util = "0.3"
indicatif = "0.17"
mongodb = "2.8"
once_cell = "1"
rand = "0.8"
ratatui = "0.29"
reqwest = { version = "0.12", default-features = false, features = ["json", "rustls-tls"] }
serde = { version = "1", features = ["derive"] }
serde_json = "1"
sysinfo = "0.32"
tokio = { version = "1", features = ["full"] }
