[package]
name = "panic_ramlog"
version = "0.1.0"
edition = "2021"
publish = false

[dependencies]
cfg-if = "*"
cortex-m = "*"
