[package]
name = "rhi"
version = "0.1.0"
edition = "2021"
publish = false

[dependencies]
anyhow = "*"
clap = { version = "*", features = ["derive"] }
config = { version = "*", default-features = false, features = ["toml"] }
nostr = { version = "*", features = ["nip04"] }
nostr-sdk = "*"
serde = { version = "*", features = ["derive"] }
serde_json = "*"
thiserror = "*"
tokio = { version = "*", features = ["macros", "rt-multi-thread", "signal", "sync"] }
tracing = "*"
tracing-subscriber = "*"
