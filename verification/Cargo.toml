[package]
name = "minibookd"
version = "0.1.0"
edition = "2021"
publish = false

[dependencies]
ctrlc = "3"
evdev = "0.13"
signal-hook = "0.3"
