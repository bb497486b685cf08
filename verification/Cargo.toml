[package]
name = "pyxet"
version = "0.1.0"
edition = "2021"
publish = false

[dependencies]
anyhow = "1"
lazy_static = "1"
nfsserve = "0.10"
pyo3 = { version = "0.19", features = ["extension-module"] }
pyo3-asyncio = { version = "0.19", features = ["tokio-runtime"] }
tempfile = "3"
tokio = { version = "1", features = ["sync", "rt", "rt-multi-thread"] }
tracing = "0.1"
