[package]
name = "krew_wasm"
version = "0.1.0"
edition = "2021"
publish = false

[dependencies]
clap = { version = "*", features = ["derive", "env"] }
directories = "*"
kube-conf = "*"
term-table = "*"
