[package]
name = "science_game"
version = "0.1.0"
edition = "2021"
publish = false

[dependencies]
rsa = "=0.9.10"
rand = "=0.8.8"
race-api = "=0.2.6"
borsh = "=0.9.3"
