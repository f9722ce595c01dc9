[package]
name = "office_convert_lambda"
version = "0.1.0"
edition = "2021"
publish = false

[dependencies]
aws-config = { version = "=1.13.0", features = ["behavior-version-latest"] }
aws-sdk-lambda = "=1.156.0"
aws-sdk-s3 = "=1.157.0"
aws-smithy-runtime-api = "=1.19.2"
dotenvy = "0.15"
lambda_runtime = "=1.5.0"
libreofficekit = "=0.5.0"
serde = { version = "1", features = ["derive"] }
serde_json = "=1.0.154"
tar = "0.4"
thiserror = "2"
tokio = { version = "1", features = ["full"] }
tracing = "0.1"
uuid = { version = "=1.29.0", features = ["v4"] }
zstd = "0.13"
