[package]
name = "batch_upload"
version = "0.1.0"
edition = "2021"
publish = false

[dependencies]
failure = "*"
futures = "*"
rusoto_core = { version = "*", default-features = false, features = ["rustls"] }
rusoto_credential = "*"
rusoto_s3 = { version = "*", default-features = false, features = ["rustls"] }
tokio = { version = "*", features = ["rt-multi-thread"] }
