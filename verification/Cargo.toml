[package]
name = "proxyer"
version = "0.1.0"
edition = "2021"
publish = false

[dependencies]
sha256 = "*"
chrono = "*"
hyper = { version = "0.14", features = ["client", "http1", "server", "tcp"] }
tokio = { version = "1", features = ["rt-multi-thread", "net", "io-util", "macros"] }
clap = { version = "4", features = ["derive"] }
once_cell = "*"
