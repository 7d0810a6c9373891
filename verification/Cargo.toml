[package]
name = "visiproc"
version = "0.1.0"
edition = "2021"
publish = false

[dependencies]
arrow = { version = "=60.0.0", default-features = false, features = ["csv"] }
arrow-csv = "=60.0.0"
aws-sdk-athena = "=1.122.0"
aws-sdk-dynamodb = "=1.131.0"
aws-sdk-s3 = "=1.152.0"
aws-sdk-sns = "=1.116.0"
aws-sdk-sqs = "=1.114.0"
chrono = "=0.4.45"
clap = { version = "=4.6.7", features = ["derive"] }
eyre = "=0.6.14"
fern = "=0.7.1"
log = "=0.4.34"
parquet = { version = "=60.0.0", default-features = false, features = ["arrow", "snap"] }
serde = { version = "=1.0.229", features = ["derive"] }
serde_json = "=1.0.154"
shlex = "=1.3.0"
tokio = { version = "=1.54.1", features = ["full"] }
uuid = { version = "=1.29.0", features = ["v4"] }
