[package]
name = "blue-time"
version = "0.1.0"
edition = "2021"
publish = false

[dependencies]
serde = { version = "=1.0.229", features = ["derive"] }
serde_json = "=1.0.154"
directories = "=6.0.0"
async-channel = "=2.5.0"
ksni = { version = "=0.3.7", features = ["blocking"] }
gettext-rs = { version = "=0.8.0", features = ["gettext-system"] }
gtk4 = { version = "=0.11.5", features = ["v4_12"] }
libadwaita = { version = "=0.9.2", features = ["v1_5"] }
