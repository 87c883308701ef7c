[package]
name = "quarto"
version = "0.1.0"
edition = "2021"
publish = false

[dependencies]
rand = "0.8"
async-std = "1"
async-trait = "0.1"
futures = "0.3"
pollster = "0.3"
