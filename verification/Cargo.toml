[package]
name = "escrow_fight"
version = "0.1.0"
edition = "2021"
publish = false

[dependencies]
multiversx-sc = "*"
rand = "0.8"
