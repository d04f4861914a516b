[package]
name = "cmish"
version = "0.1.0"
edition = "2021"
publish = false

[dependencies]
clap = { version = "4", features = ["derive", "cargo"] }
indicatif = "*"
rustyline = { version = "*", features = ["derive"] }
serde = { version = "1", features = ["derive"] }
serde_json = "1"
shlex = "1"
ureq = "3"
