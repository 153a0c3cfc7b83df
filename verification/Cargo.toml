[package]
name = "pumpkin_text"
version = "0.1.0"
edition = "2021"
publish = false

[dependencies]
rand = "0.9"
serde_json = "1"
log = "0.4"
simplelog = "0.12"
flate2 = "1"
time = "0.3"
