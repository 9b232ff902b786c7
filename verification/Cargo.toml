[package]
name = "telemetry_parser"
version = "0.1.0"
edition = "2021"
publish = false

[dependencies]
memchr = "=2.8.3"
byteorder = "=1.5.0"
chrono = { version = "=0.4.45", default-features = false, features = ["alloc"] }
serde_json = "=1.0.154"
human-sort = "=0.2.2"
serde_yaml = "0.9"
