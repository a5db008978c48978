[package]
name = "cwnote"
version = "0.1.0"
edition = "2021"
publish = false

[dependencies]
anyhow = "*"
aws-config = "*"
aws-sdk-cloudwatch = "*"
chrono = "*"
clap = { version = "*", features = ["derive"] }
serde_json = { version = "*", features = ["preserve_order"] }
tokio = { version = "*", features = ["macros", "rt-multi-thread"] }
