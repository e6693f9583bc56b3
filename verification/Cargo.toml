[package]
name = "asterisk_apps"
version = "0.1.0"
edition = "2021"
publish = false

[dependencies]
subtle = "2"
zeroize = "1"
uuid = { version = "1", features = ["v4"] }
rand = "0.8"
