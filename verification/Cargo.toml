[package]
name = "rucli"
version = "0.1.0"
edition = "2021"
publish = false

[dependencies]
clap = { version = "*", features = ["derive", "env"] }
ssh2 = "*"
ssh2-config = "*"
