[package]
name = "geofriend"
version = "0.1.0"
edition = "2021"
publish = false

[dependencies]
uuid = "*"
chrono = "*"
serde = { version = "*", features = ["derive"] }
serde_json = "*"
num_cpus = "*"
