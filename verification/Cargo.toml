[package]
name = "suppaftp"
version = "0.1.0"
edition = "2021"
publish = false

[dependencies]
log = "0.4"
thiserror = "2"
tokio = { version = "1", default-features = false, features = ["io-util", "net", "sync"] }
