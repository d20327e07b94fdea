[package]
name = "rooster"
version = "0.1.0"
edition = "2021"
publish = false

[dependencies]
ansi_term = "0.12"
getopts = "0.2"
rand = "0.8"
rpassword = "5.0"
zeroize = "1"
