[package]
name = "fetcher_bot"
version = "0.1.0"
edition = "2021"
rust-version = "1.95"
publish = false

[dependencies]
dirs = "=7.0.0"
dotenvy = "=0.15.7"
log = "=0.4.35"
pretty_env_logger = "=0.5.0"
regex = "=1.13.1"
reqwest = { version = "=0.12.28", default-features = false, features = ["json", "rustls-tls"] }
serde_json = "=1.0.154"
takecell = "=0.1.1"
teloxide = { version = "=0.17.0", default-features = false, features = ["rustls", "ctrlc_handler"] }
tokio = { version = "=1.54.1", features = ["fs", "io-util", "macros", "process", "rt-multi-thread", "sync", "time"] }
uuid = { version = "=1.29.0", features = ["v4"] }
