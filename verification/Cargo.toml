[package]
name = "dynamixel2"
version = "0.1.0"
edition = "2021"
publish = false

[dependencies]
clap = { version = "4", features = ["derive"] }
clap_complete = "4"
log = "0.4"
serial2 = "0.2"
