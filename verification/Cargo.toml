[package]
name = "kashay"
version = "0.1.0"
edition = "2021"
publish = false

[dependencies]
aws-sigv4 = "*"
aws-credential-types = "*"
aws-smithy-runtime-api = "*"
base64 = "*"
http = "*"
aws-config = "*"
aws-sdk-sts = "*"
tokio = { version = "*", features = ["rt", "macros", "io-std", "io-util"] }
anyhow = "*"

[dev-dependencies]
serde_json = "*"
