[package]
name = "alexandrie"
version = "0.1.0"
edition = "2021"
publish = false

[dependencies]
semver = "=1.0.28"
serde_json = "=1.0.154"
serde = { version = "=1.0.229", features = ["derive"] }
tide = "=0.13.0"
async-std = { version = "=1.13.2", features = ["attributes"] }
diesel = { version = "=1.4.8", features = ["sqlite", "r2d2"] }
diesel_migrations = "=1.4.0"
clap = "=2.34.0"
toml = "=0.5.11"
log = "=0.4.34"

[dev-dependencies]
route-recognizer = "=0.2.0"
