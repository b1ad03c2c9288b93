[package]
name = "feed_retention"
version = "0.1.0"
edition = "2021"
publish = false

[dependencies]
anyhow = "=1.0.104"
atrium-api = "=0.25.8"
bsky-sdk = "=0.1.24"
chrono = "=0.4.45"
clap = { version = "=4.6.7", features = ["derive"] }
config = "=0.15.27"
dialoguer = "=0.12.0"
duration-str = "=0.21.0"
ipld-core = "=0.4.3"
serde = { version = "=1.0.229", features = ["derive"] }
serde_json = "=1.0.154"
tokio = { version = "=1.54.1", features = ["macros", "rt-multi-thread"] }
