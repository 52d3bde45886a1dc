[package]
name = "auth_flow"
version = "0.1.0"
edition = "2021"
publish = false

[dependencies]
oauth2 = "5"
url = "2"
open = "*"
tokio = { version = "1", features = ["rt-multi-thread", "macros", "sync", "time"] }
