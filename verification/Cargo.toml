[package]
name = "imgtag"
version = "0.3.0"
edition = "2021"
publish = false

[dependencies]
chrono = "0.4"
clap = "2"
log = "0.4"
log4rs = "1"
rexif = "*"
