[package]
name = "octocrabby"
version = "0.1.0"
edition = "2021"
publish = false

[dependencies]
chrono = { version = "=0.4.45", features = ["serde"] }
clap = "=3.0.0-beta.2"
clap_derive = "=3.0.0-beta.2"
csv = "=1.4.0"
futures = "=0.3.34"
itertools = "=0.10.5"
log = "=0.4.34"
octocrab = "=0.8.13"
reqwest = "=0.11.27"
serde = { version = "=1.0.229", features = ["derive"] }
serde_json = "=1.0.154"
tokio = { version = "=1.43.4", features = ["macros", "rt-multi-thread"] }
