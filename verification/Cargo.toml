[package]
name = "aerial"
version = "0.1.0"
edition = "2021"
publish = false

[dependencies]
regex = "1"
serde = { version = "1", features = ["derive"] }
serde_json = "1"
html5ever = "0.27"
markup5ever_rcdom = "0.3"
tendril = "0.4"
url = "2"
hyper = { version = "0.14", features = ["client", "http1", "tcp"] }
tokio = { version = "1", features = ["rt"] }
