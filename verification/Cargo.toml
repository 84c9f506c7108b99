[package]
name = "rwcore"
version = "0.1.0"
edition = "2021"
publish = false

[dependencies]
rust_decimal = { version = "1", features = ["db-postgres"] }
postgres-types = "0.2"
bytes = "1"
rand = "0.8"
tokio = { version = "1", features = ["full"] }
anyhow = "1"
prost = "0.11"
memcomparable = { version = "0.2", features = ["decimal"] }
