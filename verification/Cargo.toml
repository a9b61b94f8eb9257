[package]
name = "rmidimap"
version = "0.1.0"
edition = "2021"
publish = false

[dependencies]
alsa = "*"
clap = { version = "4", features = ["derive"] }
duration-str = "*"
libc = "0.2"
num = "0.4"
queues = "1"
regex = "1"
serde = { version = "1", features = ["derive"] }
serde_yaml = "0.9"
signal-hook = "0.3"
thiserror = "1"
