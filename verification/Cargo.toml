[package]
name = "xvenue"
version = "0.1.0"
edition = "2021"
publish = false

[dependencies]
anyhow = "1"
async-trait = "0.1"
aws-config = "1"
aws-sdk-s3 = "1"
chrono = "0.4"
log = "0.4"
once_cell = "1"
rand = "0.8"
rayon = "1"
rust_decimal = "1"
serde = { version = "1", features = ["derive"] }
serde_json = "1"
serde_yaml = "0.9"
tokio = { version = "1", features = ["macros", "rt", "rt-multi-thread", "sync", "time"] }
