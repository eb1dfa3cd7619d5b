[package]
name = "mclocks"
version = "0.1.0"
edition = "2021"
publish = false

[dependencies]
chardetng = "0.1"
directories = "5"
encoding_rs = "0.8"
rand = "0.8"
serde = { version = "1", features = ["derive"] }
serde_json = "1"
tiny_http = "0.12"
urlencoding = "2"
