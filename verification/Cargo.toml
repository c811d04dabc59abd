[package]
name = "asteroid_dodge"
version = "0.1.0"
edition = "2021"
publish = false

[dependencies]
rand = "=0.7.3"
quicksilver = { version = "=0.3.22", default-features = false, features = ["fonts"] }
env_logger = "=0.11.11"
