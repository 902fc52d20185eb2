[package]
name = "tracemetrics"
version = "0.1.0"
edition = "2021"
publish = false

[dependencies]
http-types = "*"
tide = "*"
opentelemetry = "*"
url = "*"
kv-log-macro = "*"
