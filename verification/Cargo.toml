[package]
name = "mpvc"
version = "0.1.0"
edition = "2021"

[dependencies]
serde_json = "*"
clap = "*"
clap_complete = "*"
colored = "*"
