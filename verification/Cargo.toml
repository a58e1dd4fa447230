[package]
name = "cliser"
version = "0.1.0"
edition = "2021"
publish = false

[dependencies]
regex = "1"
serde = { version = "1", features = ["derive"] }
serde_json = "1"
lazy_static = "1"
log = "0.4"
syslog = "*"
ctrlc = "3"
chrono = "0.4"
csv = "1"
rppal = "*"
reqwest = { version = "0.12", default-features = false, features = ["blocking"] }
