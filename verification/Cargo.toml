[package]
name = "bomber_defence"
version = "0.1.0"
edition = "2021"
publish = false

[dependencies]
quicksilver = { version = "0.3", default-features = false }
rand = "0.7"
