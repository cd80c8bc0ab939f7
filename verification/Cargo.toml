[package]
name = "assumer"
version = "0.1.0"
edition = "2021"
publish = false

[dependencies]
sha1 = "=0.11.0"
reqwest = { version = "=0.12.28", default-features = false, features = ["blocking", "rustls-tls"] }
rust-ini = "=0.21.3"
directories = "=6.0.0"
webbrowser = "=1.2.4"
serde_json = "*"
