[package]
name = "bucket_creds"
version = "0.1.0"
edition = "2021"
publish = false

[dependencies]
pyo3 = "0.25"
tokio = { version = "1", features = ["rt", "sync"] }
