[package]
name = "keytimer"
version = "0.1.0"
edition = "2021"
publish = false

[dependencies]
rand = "0.8"
clap = { version = "4", features = ["derive"] }
csv = "1"
serde = { version = "1", features = ["derive"] }
serde_json = "1"
enigo = "0.0.14"
rdev = { version = "0.5", features = ["unstable_grab"] }
