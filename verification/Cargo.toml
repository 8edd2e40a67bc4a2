[package]
name = "quickmail"
version = "0.1.0"
edition = "2021"
publish = false

[dependencies]
lettre = { version = "0.11", default-features = false, features = ["smtp-transport", "builder", "rustls-tls"] }
keyring = { version = "3", features = ["linux-native"] }
clap = { version = "4", features = ["derive"] }
dirs = "5"

[dev-dependencies]
serde_yaml = "0.9"
