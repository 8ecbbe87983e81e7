[package]
name = "lava-viggy"
version = "0.1.0"
edition = "2021"
publish = false

[dependencies]
chrono = { version = "0.4", features = ["serde"] }
indexmap = { version = "2", features = ["serde"] }
lava-anomaly = "*"
lava-drift = "*"
lava-outcome-chain = "*"
serde = { version = "1", features = ["derive"] }
serde_json = "1"
thiserror = "*"
