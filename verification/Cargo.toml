[package]
name = "awsm"
version = "0.1.0"
edition = "2021"
publish = false

[dependencies]
chrono = "0.4"
aws-config = { version = "1", features = ["behavior-version-latest"] }
aws-sdk-s3 = "1"
aws-sdk-dynamodb = "1"
aws-sdk-lambda = "1"
aws-sdk-cloudwatchlogs = "1"
aws-sdk-secretsmanager = "1"
tokio = { version = "1", features = ["full"] }
crossterm = "0.28"
ratatui = "0.29"
serde_json = "1"
anyhow = "1"
thiserror = "2"
