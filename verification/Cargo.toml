[package]
name = "media_inspector"
version = "0.1.0"
edition = "2021"
publish = false

[dependencies]
clap = "4"
colored = "2"
serde_json = "1"
thiserror = "1"
