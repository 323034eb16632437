[package]
name = "pojde-rs"
version = "0.1.0"
edition = "2021"
publish = false

[dependencies]
ansi-escapes = "=0.2.0"
clap = { version = "=4.6.7", features = ["derive"] }
eframe = { version = "0.14", features = ["persistence"] }
futures = "=0.3.34"
scopeguard = "=1.2.0"
self_update = "0.34"
serde = { version = "=1.0.229", features = ["derive"] }
shiplift = "=0.7.0"
spinners = "=4.2.0"
tabled = "=0.22.0"
tokio = { version = "1", features = ["full"] }
