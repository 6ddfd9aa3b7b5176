[package]
name = "manifest_synthesis"
version = "0.1.0"
edition = "2021"
publish = false

[dependencies]
base64 = "*"
chrono = "*"
serde = { version = "*", features = ["derive"] }
serde_json = "*"
secstr = { version = "*", features = ["serde"] }
k8s-openapi = { version = "*", features = ["latest"] }
