[package]
name = "apimimic_cli"
version = "0.1.0"
edition = "2021"
publish = false

[dependencies]
bytes = "1"
clap = { version = "4", features = ["derive"] }
directories = "5"
env_logger = "0.10"
hyper = { version = "0.14", features = ["full"] }
itertools = "0.12"
log = "0.4"
reqwest = { version = "0.11", features = ["json"] }
serde = { version = "1", features = ["derive"] }
serde_json = "1"
tokio = { version = "1", features = ["full"] }
url = "2"
