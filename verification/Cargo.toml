[package]
name = "swap_monitor"
version = "0.1.0"
edition = "2021"
publish = false

[dependencies]
bigdecimal = "0.4"
num-bigint = "0.4"
num-traits = "0.2"
log = "0.4"
serde = { version = "1", features = ["derive"] }
tokio = { version = "1", features = ["macros", "rt-multi-thread"] }
toml = "0.8"
web3 = { version = "0.19", default-features = false, features = ["ws-tls-tokio"] }
