[package]
name = "relevance_bench"
version = "0.1.0"
edition = "2021"
publish = false

[dependencies]
futures = "=0.3.34"
indicatif = "=0.17.11"
reqwest = { version = "=0.11.27", default-features = false, features = ["json"] }
serde = { version = "=1.0.229", features = ["derive"] }
serde_json = "=1.0.154"
tokio = { version = "=1.54.1", features = ["macros", "rt-multi-thread", "signal", "sync", "time"] }
toml = "=0.8.23"
urlencoding = "=2.1.3"
