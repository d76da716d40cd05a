[package]
name = "url_fuzzer"
version = "0.1.0"
edition = "2021"
publish = false

[dependencies]
reqwest = { version = "0.12", default-features = false, features = ["blocking"] }
clap = "2"
colored = "2"
url = "2"
