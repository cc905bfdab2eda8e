[package]
name = "logsieve"
version = "0.1.0"
edition = "2021"
publish = false

[dependencies]
flate2 = "*"
zip = "*"
regex = "*"
chrono = "*"
glob = "*"
serde = { version = "*", features = ["derive"] }
serde_json = "*"
serde_yaml = "*"
clap = { version = "*", features = ["derive"] }
flexi_logger = "*"
log = "*"
