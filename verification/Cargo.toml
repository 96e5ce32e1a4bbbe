[package]
name = "uuidgen"
version = "0.1.0"
edition = "2021"
publish = false

[dependencies]
bytes = "1"
chrono = "0.4"
getrandom = "0.3"
md-5 = "0.10"
