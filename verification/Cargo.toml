[package]
name = "pg_dispatcher"
version = "0.1.0"
edition = "2021"
publish = false

[dependencies]
postgres = "0.19"
fallible-iterator = "0.2"
clap = { version = "4", features = ["derive"] }
tokio = { version = "1", features = ["rt", "process", "sync", "io-util"] }
tracing = "0.1"
