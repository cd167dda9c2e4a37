[package]
name = "coral"
version = "0.1.0"
edition = "2021"
publish = false

[dependencies]
clap = "2"
notify = "4"
pad = "0.1"
serde = "1"
serde_derive = "1"
serde_json = "1"
terminal_size = "*"
toml = "0.5"
