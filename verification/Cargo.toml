[package]
name = "glimanexus"
version = "0.1.0"
edition = "2021"
publish = false

[dependencies]
serde = { version = "1", features = ["derive"] }
serde_json = "1"
anyhow = "1"
async-trait = "0.1"
tokio = { version = "1", features = ["full"] }
russh = "0.44"
russh-keys = "0.44"
uuid = { version = "1", features = ["v4"] }
chrono = "0.4"
sysinfo = "0.32"
rusqlite = { version = "0.32", features = ["bundled"] }
