[package]
name = "erdtree"
version = "0.1.0"
edition = "2021"
publish = false

[dependencies]
clap = { version = "=4.6.7", features = ["string"] }
clap_complete = "=4.6.11"
ignore = "=0.4.33"
