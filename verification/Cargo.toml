[package]
name = "luau_lifter"
version = "0.1.0"
edition = "2021"
publish = false

[dependencies]
nom = "7"
nom-leb128 = "0.2"
base64 = "0.13"
log = "0.4"
env_logger = "0.10"
hyper = { version = "0.14", features = ["server", "http1", "tcp", "runtime"] }
tokio = { version = "1", features = ["rt-multi-thread", "macros"] }
