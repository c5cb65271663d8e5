[package]
name = "staticserve"
version = "0.1.0"
edition = "2021"
publish = false

[dependencies]
crossbeam-channel = "=0.5.17"
log = { version = "=0.4.34", features = ["kv"] }
nix = { version = "=0.31.3", features = ["net", "poll", "signal", "socket"] }
opentelemetry = "=0.33.0"
opentelemetry_sdk = "=0.33.0"
opentelemetry-appender-log = "=0.33.0"
opentelemetry-stdout = { version = "=0.33.0", features = ["logs", "metrics", "trace"] }
