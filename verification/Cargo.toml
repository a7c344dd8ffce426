[package]
name = "slack_directory"
version = "0.1.0"
edition = "2021"
publish = false

[dependencies]
anyhow = "=1.0.104"
async-trait = "=0.1.92"
clap = { version = "=4.6.7", features = ["derive", "env"] }
derivative = "=2.2.0"
dotenv = "=0.15.0"
governor = "=0.10.4"
log = "=0.4.34"
mobc = "0.7"
mobc-redis = "=0.7.0"
nonzero_ext = "=0.3.0"
reqwest = { version = "0.11", default-features = false }
serde = { version = "=1.0.229", features = ["derive"] }
serde_json = "=1.0.154"
slack_api = { version = "=0.23.1", default-features = false, features = ["async"] }
thiserror = "=1.0.69"
tokio = { version = "=1.54.1", features = ["full"] }
tracing = "=0.1.44"
tracing-subscriber = "=0.3.23"
warp = "0.3"
