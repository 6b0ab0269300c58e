[package]
name = "nono_core"
version = "0.1.0"
edition = "2021"
publish = false

[dependencies]
aws-config = "*"
aws-credential-types = { version = "*", features = ["hardcoded-credentials"] }
aws-sigv4 = "*"
serde_json = "*"
tracing = "*"
tracing-subscriber = { version = "*", features = ["env-filter"] }
