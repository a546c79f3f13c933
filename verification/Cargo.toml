[package]
name = "bootinfo"
version = "0.1.0"
edition = "2021"
publish = false

[dependencies]
bytes = "0.4"
clap = "2"
flate2 = "1"
