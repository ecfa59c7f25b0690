[package]
name = "rtps_core"
version = "0.1.0"
edition = "2021"
publish = false

[dependencies]
chrono = "0.4"
mio = "0.6"
mio-extras = "2"
