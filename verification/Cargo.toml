[package]
name = "itch_fetch"
version = "0.1.0"
edition = "2021"
publish = false

[dependencies]
unicode-width = "=0.2.2"
anyhow = "=1.0.104"
clap = { version = "=4.6.7", features = ["derive"] }
futures = "=0.3.34"
indicatif = "=0.18.6"
reqwest = { version = "=0.13.5", default-features = false, features = ["json", "query", "stream"] }
serde = { version = "=1.0.229", features = ["derive"] }
tokio = { version = "=1.53.2", features = ["rt-multi-thread", "macros", "fs", "time", "sync", "io-util"] }
zip = { version = "=8.6.0", default-features = false, features = ["deflate"] }
