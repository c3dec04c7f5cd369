[package]
name = "cupcake"
version = "0.1.0"
edition = "2021"
publish = false

[dependencies]
html_parser = "*"
serde = { version = "*", features = ["derive"] }
serde_json = "*"
log = "*"
simple_logger = "*"
chrono = "*"
clap = { version = "*", features = ["derive"] }
url = "*"
tokio = { version = "*", features = ["rt-multi-thread", "macros", "signal", "sync"] }
futures-util = "*"
reqwest = { version = "*", default-features = false, features = ["rustls-tls"] }
rust_socketio = { version = "*", features = ["async"] }
