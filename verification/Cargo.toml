[package]
name = "dojo_torii"
version = "0.1.0"
edition = "2021"
publish = false

[dependencies]
anyhow = "=1.0.104"
async-graphql = { version = "=7.2.1", default-features = false, features = ["dynamic-schema"] }
chrono = { version = "=0.4.45", default-features = false, features = ["std", "serde"] }
clap = { version = "=4.6.7", default-features = false, features = ["std", "derive"] }
indexmap = "=2.14.2"
serde = { version = "=1.0.229", features = ["derive"] }
sqlx = { version = "=0.8.6", default-features = false, features = ["sqlite", "chrono", "runtime-tokio", "derive"] }
starknet = "=0.4.0"
thiserror = "=1.0.69"
toml = "=0.8.23"
url = { version = "=2.5.8", features = ["serde"] }
