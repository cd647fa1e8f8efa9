[package]
name = "issue_tracker"
version = "0.1.0"
edition = "2021"
publish = false

[dependencies]
anyhow = "1"
async-channel = "2"
chrono = "0.4"
directories = "6"
getrandom = "0.3"
httparse = "1"
pico-args = "0.5"
rmcp = { version = "*", features = ["server", "transport-io", "macros"] }
rusqlite = { version = "*", features = ["bundled"] }
rusqlite_migration = "*"
rust-embed = "8"
schemars = "1"
serde = { version = "1", features = ["derive"] }
serde_json = "1"
termcolor = "1"
tokio = { version = "1", features = ["rt-multi-thread", "macros", "io-std"] }
tracing-subscriber = { version = "0.3", features = ["env-filter"] }
