[package]
name = "sensirion_hdlc"
version = "0.1.0"
edition = "2021"
publish = false

[dependencies]
arrayvec = "*"
