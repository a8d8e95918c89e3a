[package]
name = "zk_regression"
version = "0.1.0"
edition = "2021"
publish = false

[dependencies]
ndarray = "*"
serde = { version = "*", features = ["derive"] }
sp1-zkvm = "*"
