[package]
name = "netlab"
version = "0.1.0"
edition = "2021"
publish = false

[dependencies]
rand = "*"
sha2 = "*"
clap = { version = "4", features = ["derive"] }
chrono = "*"
itertools = "*"
quiche = "*"
