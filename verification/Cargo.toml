[package]
name = "hdd_speed_test"
version = "0.1.0"
edition = "2021"
publish = false

[dependencies]
clap = "4"
ctrlc = "3"
libc = "0.2"
memmap = "0.7"
rand = "0.8"
