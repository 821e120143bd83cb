[package]
name = "gitid"
version = "0.1.0"
edition = "2021"
publish = false

[dependencies]
serde_json = "1"
clap = "2.33"
dirs = "*"
