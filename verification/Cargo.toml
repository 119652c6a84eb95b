[package]
name = "mihon_desktop"
version = "0.1.0"
edition = "2021"
publish = false

[dependencies]
chrono = "0.4"
egui = { version = "*", default-features = false }
log = "0.4"
anyhow = "1"
