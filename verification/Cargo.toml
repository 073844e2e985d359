[package]
name = "test_helpers_end_to_end"
version = "0.1.0"
edition = "2021"
publish = false

[dependencies]
arrow = { version = "*", default-features = false, features = ["prettyprint"] }
futures = "*"
http = "*"
reqwest = { version = "*", default-features = false }
tokio = { version = "*", features = ["time"] }
tonic = { version = "*", default-features = false }
