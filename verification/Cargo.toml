[package]
name = "falconf"
version = "0.1.0"
edition = "2021"
publish = false

[dependencies]
shell-words = "1"
uuid = { version = "1", features = ["v4", "serde"] }
rand = "0.9"
hostname = "0.4"
clap = { version = "4", features = ["derive"] }
color-eyre = "0.6"
git2 = { version = "*", default-features = false }
ron = "*"
serde = { version = "1", features = ["derive"] }
log = "0.4"
env_logger = "*"
expanduser = "1"
command-error = "*"
