[package]
name = "terax_agents"
version = "0.1.0"
edition = "2021"
publish = false

[dependencies]
regex = "1"
serde = { version = "1", features = ["derive"] }
serde_json = "1"
uuid = { version = "1", features = ["v4"] }
rusqlite = { version = "*", features = ["bundled"] }
chrono = "0.4"
which = "*"
log = "0.4"
thiserror = "*"
async-trait = "0.1"
tauri = { version = "2", default-features = false }
