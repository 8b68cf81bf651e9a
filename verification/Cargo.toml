[package]
name = "sisi"
version = "0.1.0"
edition = "2021"
publish = false

[dependencies]
ed25519-dalek = "=2.2.0"
hex = "=0.4.3"
sha2 = "=0.10.9"
ulid = "=1.2.1"
getrandom = "=0.3.4"
serde = { version = "=1.0.229", features = ["derive"] }
serde_json = "=1.0.154"
tokio = { version = "=1.54.1", features = ["rt-multi-thread", "macros", "fs", "io-util", "net", "sync"] }
anyhow = "=1.0.104"
thiserror = "=2.0.21"
tracing = "=0.1.44"
rusqlite = { version = "=0.41.1", features = ["bundled"] }
dirs = "=7.0.0"
libc = "=0.2.191"
reqwest = { version = "0.12", default-features = false, features = ["json"] }
