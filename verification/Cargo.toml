[package]
name = "starlight"
version = "0.1.0"
edition = "2021"
publish = false

[dependencies]
proc-macro2 = "1"
quote = "1"
syn = "2"
tokio = { version = "1", features = ["rt", "sync"] }
