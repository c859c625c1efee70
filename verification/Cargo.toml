[package]
name = "oryx"
version = "0.1.0"
edition = "2021"
publish = false

[dependencies]
anyhow = "1"
bigdecimal = "0.3.1"
env_logger = { version = "0.10", default-features = false }
ethers = { version = "2", default-features = false, features = ["abigen"] }
log = "0.4"
num-format = "0.4.4"
reqwest = { version = "0.11", default-features = false }
tokio = { version = "1", features = ["macros", "rt-multi-thread"] }
urlencoding = "2.1.3"
