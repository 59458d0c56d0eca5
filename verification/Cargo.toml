[package]
name = "yap"
version = "0.1.0"
edition = "2021"
publish = false

[dependencies]
url = "2"
chrono = "0.4"
tokio = { version = "1", features = ["full"] }
hyper = { version = "1", features = ["http1", "server", "client"] }
hyper-util = { version = "0.1", features = ["client", "client-legacy", "http1", "server", "tokio"] }
http-body-util = "0.1"
ratatui = "*"
crossterm = { version = "*", features = ["event-stream"] }
futures = "0.3"
color-eyre = "0.6"
