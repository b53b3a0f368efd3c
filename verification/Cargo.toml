[package]
name = "network_decisions"
version = "0.1.0"
edition = "2021"
publish = false

[dependencies]
futures = "0.3"
pyo3 = { version = "*", features = ["abi3-py39", "extension-module"] }
pyo3-async-runtimes = { version = "*", features = ["tokio-runtime"] }
serde = { version = "1", features = ["derive"] }
serde_json = "1"
tokio = { version = "1", features = ["io-util", "sync"] }
