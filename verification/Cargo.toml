[package]
name = "dorst"
version = "0.1.0"
edition = "2021"
publish = false

[dependencies]
anyhow = "=1.0.104"
async-channel = "=2.5.0"
clap = { version = "=4.6.7", features = ["string"] }
git2 = "=0.18.3"
glib = "=0.18.5"
gtk4 = { version = "=0.7.3", features = ["v4_10"] }
indicatif = "=0.17.11"
libadwaita = { version = "=0.5.3", features = ["v1_4"] }
serde = { version = "=1.0.229", features = ["derive"] }
serde_yaml = "=0.9.34"
tracing = "=0.1.44"
tracing-appender = "=0.2.5"
tracing-subscriber = "=0.3.23"
