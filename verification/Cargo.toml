[package]
name = "npm_time_machine"
version = "0.1.0"
edition = "2021"
publish = false

[dependencies]
semver = "1"
time = { version = "0.3", features = ["parsing", "macros"] }
serde = { version = "1", features = ["derive"] }
serde_json = "1"
tokio = { version = "1", features = ["macros", "rt-multi-thread", "sync"] }
reqwest = { version = "0.12", default-features = false, features = ["json"] }
clap = { version = "4", features = ["derive"] }
