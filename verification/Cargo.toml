[package]
name = "bullet"
version = "0.1.0"
edition = "2021"
publish = false

[dependencies]
termion = "*"
syntect = { version = "*", default-features = false, features = ["default-fancy"] }
rustbox = "*"
rustty = "*"
