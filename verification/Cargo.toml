[package]
name = "repo_server_rs"
version = "0.1.0"
edition = "2021"
publish = false

[dependencies]
base64 = "0.13"
cxx = "1"
prost = "0.12"
serde = { version = "1", features = ["derive"] }
serde_json = "1"
sodiumoxide = "0.2"
thiserror = "1"
toml = "0.8"
tracing = "0.1"
uuid = { version = "1", features = ["v4"] }
zmq = "0.10"
