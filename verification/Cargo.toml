[package]
name = "ankicode"
version = "0.1.0"
edition = "2021"
publish = false

[dependencies]
chrono = "0.4"
chrono-tz = "0.10"
rand = "0.9"
sha2 = "0.10"
hex = "0.4"
serde = { version = "1", features = ["derive"] }
serde_json = "1"
thiserror = "2"
rusqlite = { version = "*", features = ["bundled"] }
axum = "0.8"
tokio = { version = "1", features = ["net", "macros", "rt-multi-thread"] }
tower-http = { version = "*", features = ["cors"] }
fsrs = "=6.6.1"
open = "5"
