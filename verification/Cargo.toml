[package]
name = "jsl_fuzz"
version = "0.1.0"
edition = "2021"
publish = false

[dependencies]
rand = "*"
chrono = "*"
serde_json = "*"
clap = "*"
jsl = "*"
