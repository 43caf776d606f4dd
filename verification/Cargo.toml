[package]
name = "gamma"
version = "0.1.0"
edition = "2021"
publish = false

[dependencies]
anyhow = "1"
async-trait = "0.1"
bincode = "1"
chrono = { version = "0.4", features = ["serde"] }
enum-iterator = "*"
fern = "0.6"
futures = "0.3"
log = "0.4"
ndarray = { version = "0.15", features = ["serde"] }
num_enum = "*"
serde = { version = "1", features = ["derive"] }
serde_yaml = "0.8"
structopt = "0.3"
thiserror = "1"
tokio = { version = "1", features = ["fs", "io-util", "macros", "rt-multi-thread"] }
