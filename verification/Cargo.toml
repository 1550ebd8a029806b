[package]
name = "servo_canfd"
version = "0.1.0"
edition = "2021"
publish = false

[dependencies]
cands_interface = "*"
cands_presentation = "*"
cands_transport = "*"
async-io = "*"
futures-lite = "*"
tokio = { version = "*", features = ["time", "sync", "rt", "macros"] }
