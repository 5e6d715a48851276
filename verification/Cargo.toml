[package]
name = "athenadef"
version = "0.1.0"
edition = "2021"
publish = false

[dependencies]
anyhow = "1"
aws-config = "=1.12.0"
aws-sdk-athena = "=1.122.0"
aws-sdk-glue = "=1.177.0"
aws-sdk-s3 = "=1.152.0"
aws-types = "~1.6"
clap = { version = "4", features = ["derive"] }
console = "0.15"
regex = "=1.13.1"
serde = { version = "1", features = ["derive"] }
serde_json = "1"
serde_yaml = "0.9"
similar = "=2.7.0"
tokio = { version = "1", features = ["full"] }
tracing = "0.1"
tracing-subscriber = { version = "0.3", features = ["env-filter"] }
walkdir = "2"
